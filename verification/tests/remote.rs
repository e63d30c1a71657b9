use fleetops::cleanup::{CleanupResult, NetworkInfo, PruneStats};
use fleetops::cleanup_run::{
    cleanup_steps, count_removed_images, prune_all_images_args, prune_message, read_step_output,
    record_step, safe_cleanup_message, step_args, CleanupStep, StepOutcome,
};
use fleetops::digest::{
    digests_differ, finish_image_list, has_update, image_candidates, images_args, local_digest,
    local_digest_args, manifest_args, needs_manifest, remote_digest, ImageRef,
};
use fleetops::inventory::DockerImage;
use fleetops::profiles::{plan_for_profile, CleanupProfile, CleanupThresholds};
use fleetops::remote::{
    all_containers_args, analyze_build_cache_remote, analyze_dangling_images_remote,
    analyze_stopped_containers_remote, count_pruned_networks, dangling_images_args,
    find_bad_record, network_inspect_args, network_is_unused, networks_to_inspect,
    parse_prune_output, parse_reclaimed_space, records, system_df_args, unused_network_stats,
    until_filter, RemoteAnalysisError,
};
use fleetops::timestamps::{parse_api_timestamp, parse_docker_timestamp, timestamp_or_zero};

fn strings(v: &[&str]) -> Vec<String> {
    v.iter().map(|s| s.to_string()).collect()
}

#[test]
fn docker_timestamps() {
    assert_eq!(parse_docker_timestamp("2024-01-15 10:30:45 +0000 UTC"), 1705314645);
    assert_eq!(parse_docker_timestamp("2024-01-15 10:30:45 +0500 XYZ"), 1705314645);
    assert_eq!(parse_docker_timestamp("1970-01-01 00:00:00"), 0);
    assert_eq!(parse_docker_timestamp("1970-01-01 00:00:01 whatever"), 1);
    assert_eq!(parse_docker_timestamp("1969-12-31 23:59:59 UTC"), -1);
    assert_eq!(parse_docker_timestamp("2024-01-15 10:30"), 0);
    assert_eq!(parse_docker_timestamp(""), 0);
    assert_eq!(parse_docker_timestamp("2024-13-15 10:30:45 UTC"), 0);
    assert_eq!(parse_docker_timestamp("2024-01-15T10:30:45Z"), 0);
    assert_eq!(parse_docker_timestamp("not a timestamp at all"), 0);
}

#[test]
fn api_timestamps() {
    assert_eq!(parse_api_timestamp(&Some("2024-01-15T10:30:45Z".to_string())), 1705314645);
    assert_eq!(parse_api_timestamp(&Some("2024-01-15T10:30:45.123456789+02:00".to_string())), 1705307445);
    assert_eq!(parse_api_timestamp(&Some("2024-01-15 10:30:45".to_string())), 0);
    assert_eq!(parse_api_timestamp(&None), 0);
    assert_eq!(timestamp_or_zero(Some(-5)), -5);
    assert_eq!(timestamp_or_zero(None), 0);
}

#[test]
fn records_are_the_trimmed_lines_that_are_not_blank() {
    assert_eq!(records(" {\"a\":1} \r\n\n   \n{}\n"), strings(&["{\"a\":1}", "{}"]));
    assert!(records("").is_empty());
    assert_eq!(find_bad_record(&strings(&["{}", "[1,2]", "\"x\"", "7"])), None);
    assert_eq!(find_bad_record(&strings(&["{}", "{oops", "also bad"])), Some("{oops".to_string()));
    assert_eq!(find_bad_record(&strings(&["{} {}"])), Some("{} {}".to_string()));
}

#[test]
fn dangling_images_from_the_command_line() {
    let out = r#"{"ID":"aaa","Size":"1.5GB","Repository":"<none>"}
   {"ID":"bbb","Size":"250MB"}

{"Size":"3GB"}
{"ID":7,"Size":12}
"#;
    let stats = analyze_dangling_images_remote(out).unwrap();
    assert_eq!(stats.count, 4);
    assert_eq!(stats.total_size_bytes, 1_610_612_736 + 262_144_000 + 3 * 1_073_741_824);
    let got: Vec<(&str, u64)> = stats.items.iter().map(|i| (i.image_id.as_str(), i.size_bytes)).collect();
    assert_eq!(got, vec![("", 3_221_225_472), ("aaa", 1_610_612_736), ("bbb", 262_144_000), ("", 0)]);
    assert_eq!(stats.items[0].repository, "<none>");
    assert_eq!(stats.items[0].tag, "<none>");
    assert_eq!(stats.items[0].created_timestamp, 0);
    assert_eq!(analyze_dangling_images_remote("").unwrap().count, 0);
    match analyze_dangling_images_remote("{\"ID\":\"a\"}\n  not json  \n{bad") {
        Err(RemoteAnalysisError::ImageJson { line }) => assert_eq!(line, "not json"),
        other => panic!("unexpected {:?}", other),
    }
    assert_eq!(
        RemoteAnalysisError::ImageJson { line: "x".to_string() }.message(),
        "Failed to parse Docker JSON output: 'x'"
    );
    assert_eq!(
        RemoteAnalysisError::NetworkJson { line: "x".to_string() }.message(),
        "Failed to parse Docker network JSON: 'x'"
    );
    assert_eq!(
        RemoteAnalysisError::ContainerJson { line: "x".to_string() }.message(),
        "Failed to parse Docker container JSON: 'x'"
    );
}

#[test]
fn networks_from_the_command_line() {
    let out = r#"{"ID":"1","Name":"bridge","Driver":"bridge"}
{"ID":"2","Name":"app_net","Driver":"overlay"}
{"ID":"3","Name":"host","Driver":"host"}
{"Name":"bare"}
{"ID":"5","Name":"none","Driver":"null"}
{"ID":"6"}
"#;
    let nets = networks_to_inspect(out).unwrap();
    let got: Vec<(&str, &str, &str)> = nets.iter().map(|n| (n.id.as_str(), n.name.as_str(), n.driver.as_str())).collect();
    assert_eq!(got, vec![("2", "app_net", "overlay"), ("", "bare", "bridge"), ("6", "", "bridge")]);
    match networks_to_inspect("{}\nnope") {
        Err(RemoteAnalysisError::NetworkJson { line }) => assert_eq!(line, "nope"),
        other => panic!("unexpected {:?}", other),
    }
    assert!(network_is_unused(Some("{}\n")));
    assert!(network_is_unused(Some("  null ")));
    assert!(network_is_unused(None));
    assert!(!network_is_unused(Some("{\"abc\":{}}")));
    assert!(!network_is_unused(Some("")));
    let stats = unused_network_stats(nets, &vec![true, false, true]);
    assert_eq!(stats.count, 2);
    let names: Vec<&str> = stats.items.iter().map(|n| n.name.as_str()).collect();
    assert_eq!(names, vec!["app_net", ""]);
    let none = unused_network_stats(Vec::<NetworkInfo>::new(), &vec![]);
    assert_eq!(none.count, 0);
}

#[test]
fn build_cache_from_the_command_line() {
    let out = r#"{"Images":[],"BuildCache":[{"ID":"c1","Type":"regular","Size":"1.2kB","InUse":false,"Shared":true},{"ID":"c2","Size":"5MB","InUse":true},{"Size":7,"InUse":"yes"}]}
this line is no json
{"BuildCache":"none"}
{"BuildCache":[{"ID":"c4","Type":"source.local","Size":"0B"}]}
[1,2,3]
"#;
    let stats = analyze_build_cache_remote(out);
    let got: Vec<(&str, &str, u64, bool, bool)> = stats.items.iter().map(|i| (i.id.as_str(), i.cache_type.as_str(), i.size_bytes, i.in_use, i.shared)).collect();
    assert_eq!(
        got,
        vec![
            ("c1", "regular", 1228, false, true),
            ("c2", "unknown", 5 * 1024 * 1024, true, false),
            ("", "unknown", 0, false, false),
            ("c4", "source.local", 0, false, false)
        ]
    );
    assert_eq!(stats.total_size_bytes, 1228 + 5 * 1024 * 1024);
    assert_eq!(stats.reclaimable_bytes, 1228);
    assert_eq!(stats.items[0].last_used_timestamp, None);
    assert_eq!(analyze_build_cache_remote("").items.len(), 0);
}

#[test]
fn stopped_containers_from_the_command_line() {
    let now = 1705314645 + 40 * 86400;
    let out = r#"{"ID":"0123456789abcdef","Names":"old_db","Image":"postgres:15","State":"exited","Status":"Exited (0) 5 weeks ago","CreatedAt":"2024-01-15 10:30:45 +0000 UTC","Size":"12.5MB"}
{"ID":"1111","Names":"web","State":"running","CreatedAt":"2023-01-15 10:30:45 +0000 UTC","Size":"1GB"}
{"ID":"222222222222222222","State":"created","CreatedAt":"unknown","Size":"2GB"}
{"ID":"3333","Names":"young","State":"exited","CreatedAt":"2024-02-20 10:30:45 +0000 UTC","Size":"9GB"}
"#;
    let stats = analyze_stopped_containers_remote(out, 30, now).unwrap();
    assert_eq!(stats.count, 2);
    assert_eq!(stats.total_size_bytes, 2 * 1_073_741_824 + 13107200);
    assert_eq!(stats.items[0].id, "222222222222222222");
    assert_eq!(stats.items[0].name, "222222222222");
    assert_eq!(stats.items[0].image, "unknown");
    assert_eq!(stats.items[0].status, "created");
    assert_eq!(stats.items[0].created_timestamp, 0);
    assert_eq!(stats.items[1].name, "old_db");
    assert_eq!(stats.items[1].image, "postgres:15");
    assert_eq!(stats.items[1].status, "Exited (0) 5 weeks ago");
    assert_eq!(stats.items[1].created_timestamp, 1705314645);
    assert_eq!(stats.items[1].size_bytes, 13107200);
    assert_eq!(analyze_stopped_containers_remote(out, 0, now).unwrap().count, 3);
    match analyze_stopped_containers_remote("  {\"a\"  ", 30, now) {
        Err(RemoteAnalysisError::ContainerJson { line }) => assert_eq!(line, "{\"a\""),
        other => panic!("unexpected {:?}", other),
    }
}

#[test]
fn command_arguments() {
    assert_eq!(dangling_images_args(), strings(&["image", "ls", "--filter", "dangling=true", "--format", "{{json .}}"]));
    assert_eq!(network_inspect_args("app_net"), strings(&["network", "inspect", "app_net", "--format", "{{json .Containers}}"]));
    assert_eq!(system_df_args(), strings(&["system", "df", "-v", "--format", "{{json .}}"]));
    assert_eq!(all_containers_args(), strings(&["ps", "-a", "--format", "{{json .}}"]));
    assert_eq!(images_args(), strings(&["images", "--format", "{{json .}}"]));
    assert_eq!(prune_all_images_args(), strings(&["image", "prune", "-a", "-f"]));
    let image = ImageRef { repository: "nginx".to_string(), tag: "1.25".to_string() };
    assert_eq!(local_digest_args(&image), strings(&["inspect", "nginx:1.25", "--format={{index .RepoDigests 0}}"]));
    assert_eq!(manifest_args(&image), strings(&["manifest", "inspect", "nginx:1.25"]));
}

#[test]
fn until_filters() {
    assert_eq!(until_filter(30), "until=720h");
    assert_eq!(until_filter(0), "until=0h");
    assert_eq!(until_filter(-1), "until=-24h");
    assert_eq!(until_filter(i64::MAX), "until=221360928884514619368h");
    assert_eq!(until_filter(i64::MIN), "until=-221360928884514619392h");
}

#[test]
fn prune_output() {
    let out = "Deleted Images:\ndeleted: sha256:abc\n\nTotal reclaimed space: 1.5GB\n";
    assert_eq!(parse_prune_output(out), PruneStats { count: 1, space_reclaimed: 1_610_612_736 });
    assert_eq!(parse_prune_output("Total reclaimed space: 500MB"), PruneStats { count: 0, space_reclaimed: 524_288_000 });
    assert_eq!(parse_prune_output("Total reclaimed space: 0B"), PruneStats { count: 0, space_reclaimed: 0 });
    assert_eq!(parse_prune_output(""), PruneStats { count: 0, space_reclaimed: 0 });
    let ids = "sha256:one\n  deleted: two\n0123456789ab\n0123456789abc\n0123456789AG\n  ABCDEF012345  \nuntagged: x\nTotal reclaimed space:   2KB  \n";
    assert_eq!(parse_prune_output(ids), PruneStats { count: 4, space_reclaimed: 2048 });
    let both = "Deleted Containers:\n0123456789ab\nDeleted Networks:\nTotal reclaimed space: 1B\nTotal reclaimed space: 3B\n";
    assert_eq!(parse_prune_output(both), PruneStats { count: 2, space_reclaimed: 3 });
    assert_eq!(parse_prune_output("Deleted: x\ndeleted y\nDeleted\n"), PruneStats { count: 0, space_reclaimed: 0 });
}

#[test]
fn pruned_networks_and_reclaimed_space() {
    assert_eq!(count_pruned_networks("Deleted Networks:\nnet1\n\n  \nnet2\n"), 2);
    assert_eq!(count_pruned_networks("net1"), 0);
    assert_eq!(count_pruned_networks(""), 0);
    assert_eq!(parse_reclaimed_space("deleted: x\nTotal reclaimed space: 1.23GB\nreclaimed: 5MB"), 1320702443);
    assert_eq!(parse_reclaimed_space("x\nspace reclaimed: 5MB\n"), 5 * 1024 * 1024);
    assert_eq!(parse_reclaimed_space("Total reclaimed space:\n"), 0);
    assert_eq!(parse_reclaimed_space("nothing here"), 0);
    assert_eq!(count_removed_images("deleted: a\nuntagged: b\n deleted: c\nDeleted: d\nTotal"), 2);
}

#[test]
fn cleanup_steps_and_their_commands() {
    assert_eq!(cleanup_steps(&plan_for_profile(CleanupProfile::Conservative)), vec![CleanupStep::DanglingImages, CleanupStep::UnusedNetworks, CleanupStep::BuildCache, CleanupStep::StoppedContainers]);
    assert_eq!(cleanup_steps(&plan_for_profile(CleanupProfile::Moderate)), vec![CleanupStep::DanglingImages, CleanupStep::UnusedNetworks, CleanupStep::BuildCache, CleanupStep::StoppedContainers, CleanupStep::UnusedImages]);
    let th = CleanupThresholds { stopped_container_age_days: 7, unused_image_age_days: 90 };
    assert_eq!(step_args(CleanupStep::DanglingImages, &th), strings(&["image", "prune", "-f", "--filter", "dangling=true"]));
    assert_eq!(step_args(CleanupStep::UnusedNetworks, &th), strings(&["network", "prune", "-f"]));
    assert_eq!(step_args(CleanupStep::BuildCache, &th), strings(&["builder", "prune", "-f"]));
    assert_eq!(step_args(CleanupStep::StoppedContainers, &th), strings(&["container", "prune", "-f", "--filter", "until=168h"]));
    assert_eq!(step_args(CleanupStep::UnusedImages, &th), strings(&["image", "prune", "-a", "-f", "--filter", "until=2160h"]));
    assert_eq!(read_step_output(CleanupStep::UnusedNetworks, "Deleted Networks:\na\nb\n"), PruneStats { count: 2, space_reclaimed: 0 });
    assert_eq!(read_step_output(CleanupStep::BuildCache, "Total reclaimed space: 1KB"), PruneStats { count: 0, space_reclaimed: 1024 });
}

#[test]
fn recording_steps() {
    let mut r = CleanupResult::default();
    record_step(&mut r, CleanupStep::DanglingImages, StepOutcome::Done(PruneStats { count: 3, space_reclaimed: 100 }));
    record_step(&mut r, CleanupStep::UnusedNetworks, StepOutcome::Done(PruneStats { count: 2, space_reclaimed: 999 }));
    record_step(&mut r, CleanupStep::BuildCache, StepOutcome::Failed("no builder".to_string()));
    record_step(&mut r, CleanupStep::StoppedContainers, StepOutcome::Done(PruneStats { count: 4, space_reclaimed: 20 }));
    record_step(&mut r, CleanupStep::UnusedImages, StepOutcome::Done(PruneStats { count: 1, space_reclaimed: 3 }));
    assert_eq!(r.dangling_images_removed, 3);
    assert_eq!(r.networks_removed, 2);
    assert_eq!(r.build_cache_reclaimed, 0);
    assert_eq!(r.stopped_containers_removed, 4);
    assert_eq!(r.unused_images_removed, 1);
    assert_eq!(r.space_reclaimed_bytes, 123);
    assert_eq!(r.errors, strings(&["Failed to prune build cache: no builder"]));
    record_step(&mut r, CleanupStep::BuildCache, StepOutcome::Done(PruneStats { count: 9, space_reclaimed: u64::MAX }));
    assert_eq!(r.build_cache_reclaimed, u64::MAX);
    assert_eq!(r.space_reclaimed_bytes, u64::MAX);
    for (step, text) in [(CleanupStep::DanglingImages, "dangling images"), (CleanupStep::UnusedNetworks, "networks"), (CleanupStep::StoppedContainers, "stopped containers"), (CleanupStep::UnusedImages, "unused images")] {
        let mut e = CleanupResult::default();
        record_step(&mut e, step, StepOutcome::Failed("x".to_string()));
        assert_eq!(e.errors, vec![format!("Failed to prune {}: x", text)]);
    }
}

#[test]
fn a_second_run_on_a_clean_server_reports_nothing() {
    let mut r = CleanupResult::default();
    for step in cleanup_steps(&plan_for_profile(CleanupProfile::Aggressive)) {
        let stats = read_step_output(step, if step == CleanupStep::UnusedNetworks { "" } else { "Total reclaimed space: 0B\n" });
        record_step(&mut r, step, StepOutcome::Done(stats));
    }
    assert_eq!(r.dangling_images_removed + r.unused_images_removed + r.networks_removed + r.stopped_containers_removed, 0);
    assert_eq!(r.space_reclaimed_bytes, 0);
    assert_eq!(r.build_cache_reclaimed, 0);
    assert!(r.errors.is_empty());
    assert_eq!(r.format_summary(), "No cleanup performed");
}

#[test]
fn webhook_messages() {
    let r = CleanupResult { dangling_images_removed: 2, networks_removed: 1, stopped_containers_removed: 3, unused_images_removed: 9, build_cache_reclaimed: 5, space_reclaimed_bytes: 3 * 1024 * 1024, errors: vec![] };
    assert_eq!(safe_cleanup_message(&r), "Removed 2 dangling images + 1 networks + 3 containers | Reclaimed 3MB");
    assert_eq!(safe_cleanup_message(&CleanupResult::default()), "Removed  | Reclaimed 0B");
    assert_eq!(prune_message(4, 1536 * 1024 * 1024), "Removed 4 unused images | Reclaimed 1.50GB");
    assert_eq!(prune_message(0, 5 * 1024 * 1024 + 1), "Removed 0 unused images | Reclaimed 5MB");
    assert_eq!(prune_message(1, 1023), "Removed 1 unused images | Reclaimed 0KB");
    assert_eq!(prune_message(1, 2048), "Removed 1 unused images | Reclaimed 2KB");
}

#[test]
fn image_candidates_from_the_listing() {
    let out = r#"{"Repository":"nginx","Tag":"1.25","ID":"a"}
{"Repository":"<none>","Tag":"<none>","ID":"b"}
{"Repository":"redis","Tag":"<none>"}

not json
{"Repository":"only"}
  {"Tag":"7","Repository":"redis"}
{"Repository":"nginx","Tag":"1.25"}
"#;
    let got: Vec<(String, String)> = image_candidates(out).into_iter().map(|i| (i.repository, i.tag)).collect();
    assert_eq!(got, vec![("nginx".to_string(), "1.25".to_string()), ("redis".to_string(), "7".to_string()), ("nginx".to_string(), "1.25".to_string())]);
    assert!(image_candidates("  \n").is_empty());
}

#[test]
fn digests() {
    assert_eq!(local_digest("nginx@sha256:abc\n"), Some("sha256:abc".to_string()));
    assert_eq!(local_digest("r@d1@d2"), Some("d1".to_string()));
    assert_eq!(local_digest(""), None);
    assert_eq!(local_digest("  <no value> "), None);
    assert_eq!(local_digest("nginx:latest"), None);
    assert_eq!(local_digest("nginx@"), Some("".to_string()));
    assert_eq!(remote_digest(r#"{"config":{"digest":"sha256:cfg"},"manifests":[{"digest":"sha256:m0"}]}"#), Some("sha256:cfg".to_string()));
    assert_eq!(remote_digest(r#"{"manifests":[{"digest":"sha256:m0"},{"digest":"sha256:m1"}]}"#), Some("sha256:m0".to_string()));
    assert_eq!(remote_digest(r#"{"config":{"digest":7},"manifests":[{"digest":"sha256:m0"}]}"#), Some("sha256:m0".to_string()));
    assert_eq!(remote_digest(r#"{"manifests":[]}"#), None);
    assert_eq!(remote_digest(r#"{"manifests":{"0":{"digest":"sha256:m0"}}}"#), None);
    assert!(!has_update(Some("nginx@sha256:abc"), Some(r#"{"manifests":{"0":{"digest":"sha256:m0"}}}"#)));
    assert_eq!(remote_digest("{}"), None);
    assert_eq!(remote_digest("no such manifest"), None);
}

#[test]
fn identical_digests_never_mean_an_update() {
    assert!(!digests_differ(Some("sha256:a"), Some("sha256:a")));
    assert!(digests_differ(Some("sha256:a"), Some("sha256:b")));
    assert!(!digests_differ(None, Some("sha256:b")));
    assert!(!digests_differ(Some("sha256:a"), None));
    assert!(!digests_differ(None, None));
    let same = r#"{"config":{"digest":"sha256:abc"}}"#;
    let other = r#"{"config":{"digest":"sha256:def"}}"#;
    assert!(!has_update(Some("nginx@sha256:abc"), Some(same)));
    assert!(has_update(Some("nginx@sha256:abc"), Some(other)));
    assert!(!has_update(Some("<no value>"), Some(other)));
    assert!(!has_update(None, Some(other)));
    assert!(!has_update(Some("nginx@sha256:abc"), None));
    assert!(!has_update(Some("nginx@sha256:abc"), Some("denied: rate limit")));
    assert!(!has_update(Some("nginx@sha256:abc"), Some("{}")));
    assert!(needs_manifest(Some("nginx@sha256:abc")));
    assert!(!needs_manifest(Some("")));
    assert!(!needs_manifest(None));
}

#[test]
fn finished_image_list_is_sorted_without_repeats() {
    let img = |n: &str, t: &str, u: bool| DockerImage { name: n.to_string(), current_tag: t.to_string(), has_update: u };
    let list = finish_image_list(vec![img("redis", "7", false), img("nginx", "latest", true), img("nginx", "1.25", false), img("redis", "7", true), img("a", "b:c", false), img("a:b", "c", true), img("nginx", "latest", false)]);
    let got: Vec<(&str, &str, bool)> = list.iter().map(|i| (i.name.as_str(), i.current_tag.as_str(), i.has_update)).collect();
    assert_eq!(got, vec![("a", "b:c", false), ("a:b", "c", true), ("nginx", "1.25", false), ("nginx", "latest", true), ("redis", "7", false)]);
    assert!(finish_image_list(vec![]).is_empty());
}
