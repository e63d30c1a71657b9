use fleetops::control::{
    assemble_details, assemble_report, autoremove_args, clean_cache_args, docker_cleanup_report,
    docker_updates_line, dry_run_report, is_confirmed, is_detected, needs_cache_refresh,
    not_found_message, os_cleanup_report, os_updates_line, plan_os_cleanup, probe_args,
    refresh_args, report_header, select_servers, upgrade_commands, upgrade_report, Detection,
    DetectionStep, OsCleanupPlan,
};
use fleetops::cleanup::CleanupResult;
use fleetops::image_update::{
    dependents_args, early_answer, get_restart_exclusions, image_request, list_images_args,
    parse_container_names, parse_image_list, pull_args, restart_args, restart_plan,
    should_restart_container, ImageRequest, UpdateTally,
};
use fleetops::notify::{
    flag_enabled, gotify_message, mask_key, ntfy_message, resolve_gotify_key, KeyFile, KeySource,
    NtfyAction,
};
use fleetops::packages::{DnfChecker, PackageManager, UpdateChecker};
use fleetops::profiles::CleanupProfile;
use fleetops::retry::{
    backoff_with_config, default_backoff, is_retryable_http_error, should_retry, BackoffConfig,
    HttpFailure,
};
use fleetops::server::{build_server_registry, resolve_servers, Server, ServerConfigError};
use fleetops::webhook::{
    completion, handle, handle_cleanup, health_check, route, secret_is_short, CleanupQuery,
    Operation, Route, WebhookQuery, WebhookState,
};

fn strings(v: &[&str]) -> Vec<String> {
    v.iter().map(|s| s.to_string()).collect()
}

fn state() -> WebhookState {
    WebhookState {
        secret: "right".to_string(),
        servers: build_server_registry("Cloud VM1:ubuntu@10.0.0.5, nas:root@nas", Server::local()).unwrap(),
        ssh_key: Some("/key".to_string()),
    }
}

fn query(server: &str, token: &str, image: Option<&str>) -> WebhookQuery {
    WebhookQuery { server: server.to_string(), token: token.to_string(), image: image.map(|i| i.to_string()) }
}

#[test]
fn registry_holds_the_local_server_first() {
    let reg = build_server_registry("a:u@h1, ,b:u@h2", Server::local_named("tower")).unwrap();
    assert_eq!(reg.len(), 3);
    let names: Vec<&str> = reg.servers.iter().map(|s| s.name.as_str()).collect();
    assert_eq!(names, vec!["tower", "a", "b"]);
    assert!(reg.lookup("tower").unwrap().is_local());
    assert_eq!(reg.lookup("b").unwrap().ssh_host, Some("u@h2".to_string()));
    assert!(reg.lookup("B").is_none());
    assert!(reg.lookup("").is_none());
    assert_eq!(build_server_registry("", Server::local()).unwrap().len(), 1);
}

#[test]
fn registry_flags_duplicate_names() {
    match build_server_registry("a:u@h1,b:u@h2,a:u@h3,b:u@h4", Server::local()) {
        Err(ServerConfigError::DuplicateServer { name }) => assert_eq!(name, "a"),
        _ => panic!("duplicate not flagged"),
    }
    match build_server_registry("x:u@h, localhost:u@h", Server::local()) {
        Err(ServerConfigError::DuplicateServer { name }) => assert_eq!(name, "localhost"),
        _ => panic!("duplicate not flagged"),
    }
    match build_server_registry("x:u@h, local", Server::local()) {
        Err(ServerConfigError::DuplicateServer { name }) => assert_eq!(name, "localhost"),
        _ => panic!("duplicate not flagged"),
    }
    match build_server_registry("x:u@h, a:b:c", Server::local()) {
        Err(ServerConfigError::InvalidFormat { input }) => assert_eq!(input, "a:b:c"),
        _ => panic!("invalid entry not flagged"),
    }
}

#[test]
fn resolving_names_and_specs() {
    let reg = build_server_registry("Cloud VM1:ubuntu@10.0.0.5", Server::local()).unwrap();
    let v = resolve_servers(" Cloud VM1 ,new:admin@1.2.3.4, me@there ,localhost", &reg, "localhost").unwrap();
    let got: Vec<(&str, Option<&str>)> = v.iter().map(|s| (s.name.as_str(), s.ssh_host.as_deref())).collect();
    assert_eq!(got, vec![("Cloud VM1", Some("ubuntu@10.0.0.5")), ("new", Some("admin@1.2.3.4")), ("there", Some("me@there")), ("localhost", None)]);
    match resolve_servers("Cloud VM1,nope,alsonope", &reg, "localhost") {
        Err(ServerConfigError::ServerNotFound { name }) => assert_eq!(name, "nope"),
        _ => panic!("unknown server not flagged"),
    }
    match resolve_servers("", &reg, "localhost") {
        Err(ServerConfigError::ServerNotFound { name }) => assert_eq!(name, ""),
        _ => panic!("empty entry not flagged"),
    }
    match resolve_servers("a:b:c", &reg, "localhost") {
        Err(ServerConfigError::InvalidFormat { input }) => assert_eq!(input, "a:b:c"),
        _ => panic!("invalid spec not flagged"),
    }
}

#[test]
fn selecting_servers_for_an_inventory() {
    let v = select_servers("a:u@h", true, Server::local()).unwrap();
    assert_eq!(v.len(), 2);
    assert!(v[1].is_local());
    assert_eq!(select_servers("", true, Server::local()).unwrap().len(), 1);
    assert_eq!(select_servers("a:u@h,b:u@h", false, Server::local()).unwrap().len(), 2);
    assert!(matches!(select_servers("", false, Server::local()), Err(ServerConfigError::EmptyServerList)));
    assert!(matches!(select_servers(" , ", false, Server::local()), Err(ServerConfigError::EmptyServerList)));
    assert!(matches!(select_servers("a:b:c", true, Server::local()), Err(ServerConfigError::InvalidFormat { .. })));
}

#[test]
fn routes() {
    assert_eq!(route("GET", "/health"), Some(Route::Health));
    assert_eq!(route("POST", "/health"), None);
    assert_eq!(route("POST", "/webhook/update/os"), Some(Route::Start(Operation::UpdateOs)));
    assert_eq!(route("POST", "/webhook/update/docker/all"), Some(Route::Start(Operation::UpdateDockerAll)));
    assert_eq!(route("POST", "/webhook/update/docker/image"), Some(Route::Start(Operation::UpdateDockerImage)));
    assert_eq!(route("POST", "/webhook/cleanup/safe"), Some(Route::Start(Operation::CleanupSafe)));
    assert_eq!(route("POST", "/webhook/cleanup/images/prune-unused"), Some(Route::Start(Operation::PruneUnusedImages)));
    assert_eq!(route("GET", "/webhook/update/os"), None);
    assert_eq!(route("post", "/webhook/update/os"), None);
    assert_eq!(route("POST", "/webhook/update/os/"), None);
    let h = health_check();
    assert_eq!((h.status, h.body.as_str(), h.job.is_none()), (200, "OK", true));
}

#[test]
fn a_wrong_token_is_answered_with_401_and_starts_nothing() {
    let r = handle(&state(), Operation::UpdateOs, &query("Cloud VM1", "wrong", None));
    assert_eq!(r.status, 401);
    assert_eq!(r.body, "Invalid token");
    assert!(r.job.is_none());
    for op in [Operation::UpdateOs, Operation::UpdateDockerAll, Operation::UpdateDockerImage, Operation::CleanupSafe, Operation::PruneUnusedImages] {
        for token in ["", "righ", "right ", "Right", "rightt", "wrong"] {
            for server in ["Cloud VM1", "nope"] {
                let r = handle(&state(), op, &query(server, token, None));
                assert_eq!(r.status, 401);
                assert!(r.job.is_none());
            }
        }
    }
    let c = handle_cleanup(&state(), Operation::CleanupSafe, &CleanupQuery { server: "nas".to_string(), token: "no".to_string() });
    assert_eq!(c.status, 401);
    assert!(c.job.is_none());
}

#[test]
fn the_right_token_starts_the_operation() {
    let r = handle(&state(), Operation::UpdateOs, &query("Cloud VM1", "right", None));
    assert_eq!(r.status, 202);
    assert_eq!(r.body, "OS update started for Cloud VM1");
    let job = r.job.unwrap();
    assert_eq!(job.operation, Operation::UpdateOs);
    assert_eq!(job.server.ssh_host, Some("ubuntu@10.0.0.5".to_string()));
    assert_eq!(job.image, None);
    let r = handle(&state(), Operation::UpdateDockerAll, &query("localhost", "right", Some("ignored")));
    assert_eq!((r.status, r.body.as_str()), (202, "Docker update started for localhost"));
    assert_eq!(r.job.unwrap().image, None);
    let r = handle(&state(), Operation::UpdateDockerImage, &query("nas", "right", Some("nginx:latest")));
    assert_eq!((r.status, r.body.as_str()), (202, "Docker image nginx:latest update started for nas"));
    assert_eq!(r.job.unwrap().image, Some("nginx:latest".to_string()));
    let r = handle_cleanup(&state(), Operation::CleanupSafe, &CleanupQuery { server: "nas".to_string(), token: "right".to_string() });
    assert_eq!((r.status, r.body.as_str()), (202, "Safe cleanup started for nas"));
    assert_eq!(r.job.unwrap().operation, Operation::CleanupSafe);
    let r = handle_cleanup(&state(), Operation::PruneUnusedImages, &CleanupQuery { server: "nas".to_string(), token: "right".to_string() });
    assert_eq!((r.status, r.body.as_str()), (202, "Unused image cleanup started for nas"));
}

#[test]
fn bad_requests() {
    let r = handle(&state(), Operation::UpdateOs, &query("nope", "right", None));
    assert_eq!((r.status, r.body.as_str(), r.job.is_none()), (400, "Unknown server: nope", true));
    let r = handle(&state(), Operation::UpdateDockerImage, &query("nope", "right", None));
    assert_eq!((r.status, r.body.as_str(), r.job.is_none()), (400, "Missing image parameter", true));
    let r = handle(&state(), Operation::UpdateDockerImage, &query("nope", "right", Some("x")));
    assert_eq!((r.status, r.body.as_str()), (400, "Unknown server: nope"));
}

#[test]
fn completions() {
    let ok: Result<String, String> = Ok("✅ Up to date".to_string());
    let err: Result<String, String> = Err("ssh failed".to_string());
    let c = completion(Operation::UpdateOs, "web", &ok);
    assert_eq!((c.title.as_str(), c.message.as_str()), ("web - OS update complete", "✅ OS: ✅ Up to date"));
    let c = completion(Operation::UpdateOs, "web", &err);
    assert_eq!((c.title.as_str(), c.message.as_str()), ("web - OS update failed", "❌ Error: ssh failed"));
    let c = completion(Operation::UpdateDockerAll, "web", &Ok("Updated 2 images".to_string()));
    assert_eq!((c.title.as_str(), c.message.as_str()), ("web - Docker update complete", "✅ Docker: Updated 2 images"));
    assert_eq!(completion(Operation::UpdateDockerAll, "web", &err).title, "web - Docker update failed");
    let c = completion(Operation::UpdateDockerImage, "web", &Ok("x".to_string()));
    assert_eq!((c.title.as_str(), c.message.as_str()), ("web - Docker image update complete", "✅ Docker: x"));
    assert_eq!(completion(Operation::UpdateDockerImage, "web", &err).title, "web - Docker image update failed");
    let c = completion(Operation::CleanupSafe, "web", &Ok("Removed  | Reclaimed 0B".to_string()));
    assert_eq!((c.title.as_str(), c.message.as_str()), ("web - Docker Cleanup: Complete", "✅ Removed  | Reclaimed 0B"));
    assert_eq!(completion(Operation::CleanupSafe, "web", &err).title, "web - Docker Cleanup: Failed");
    assert_eq!(completion(Operation::PruneUnusedImages, "web", &ok).title, "web - Docker Cleanup: Unused images pruned");
    assert_eq!(completion(Operation::PruneUnusedImages, "web", &err).title, "web - Docker Cleanup: Unused image prune failed");
    assert!(secret_is_short("0123456789012345678901234567890"));
    assert!(!secret_is_short("01234567890123456789012345678901"));
}

#[test]
fn detection_probes_in_order_and_stops_at_the_first_hit() {
    let mut d = Detection::new();
    assert_eq!(d.advance(Some("found")), DetectionStep::Probe(PackageManager::Apt));
    assert_eq!(d.advance(Some("")), DetectionStep::Probe(PackageManager::Dnf));
    assert_eq!(d.advance(Some(" found\n")), DetectionStep::Found(PackageManager::Dnf));
    assert_eq!(d.advance(Some("found")), DetectionStep::Found(PackageManager::Dnf));
    let mut e = Detection::new();
    assert_eq!(e.advance(None), DetectionStep::Probe(PackageManager::Apt));
    assert_eq!(e.advance(None), DetectionStep::Probe(PackageManager::Dnf));
    assert_eq!(e.advance(Some("not found")), DetectionStep::Probe(PackageManager::Pacman));
    assert_eq!(e.advance(None), DetectionStep::NotFound);
    assert_eq!(e.advance(None), DetectionStep::NotFound);
    let mut f = Detection { probed: 3 };
    assert_eq!(f.advance(Some("found")), DetectionStep::Found(PackageManager::Pacman));
    let mut g = Detection { probed: 17 };
    assert_eq!(g.advance(Some("found")), DetectionStep::NotFound);
    assert_eq!(probe_args(PackageManager::Dnf), strings(&["-c", "test -x /usr/bin/dnf && echo found"]));
    assert!(is_detected(Some("found")));
    assert!(!is_detected(Some("Found")));
    assert!(!is_detected(None));
    assert_eq!(not_found_message("web"), "No supported package manager found on web");
}

#[test]
fn cache_refresh_and_upgrades() {
    let (cmd, args) = DnfChecker.check_command();
    assert!(needs_cache_refresh(cmd, &args));
    assert!(!needs_cache_refresh("/usr/bin/dnf", &vec!["check-update"]));
    assert!(!needs_cache_refresh("dnf", &vec!["--cacheonly"]));
    assert_eq!(refresh_args(), strings(&["makecache", "--quiet"]));
    assert_eq!(
        upgrade_commands(PackageManager::Apt),
        vec![strings(&["apt-get", "update", "-qq"]), strings(&["DEBIAN_FRONTEND=noninteractive", "apt-get", "full-upgrade", "-y"])]
    );
    assert_eq!(upgrade_commands(PackageManager::Dnf), vec![strings(&["dnf", "upgrade", "-y"])]);
    assert_eq!(upgrade_commands(PackageManager::Pacman), vec![strings(&["pacman", "-Syu", "--noconfirm"])]);
    assert_eq!(dry_run_report(0), "No updates available");
    assert_eq!(dry_run_report(12), "12 packages would be updated");
    assert_eq!(upgrade_report(0), "✅ Up to date");
    assert_eq!(upgrade_report(3), "⚠️ 3 updates still available (may require reboot or manual intervention)");
}

#[test]
fn run_reports() {
    let s = Server::parse("web:u@h").unwrap();
    assert_eq!(report_header(&s, "u@h", false), "🖥️  web (u@h)");
    assert_eq!(report_header(&s, "u@h", true), "[DRY-RUN] 🖥️  web (u@h)");
    assert_eq!(os_updates_line("x"), "   OS Updates: x");
    assert_eq!(docker_updates_line("y"), "   Docker Updates: y");
    assert_eq!(assemble_report(&strings(&["a", "b"])), "a\nb");
    assert_eq!(assemble_details(&strings(&["a", "b", "c"])), "a\n\nb\n\nc");
    assert_eq!(
        docker_cleanup_report(CleanupProfile::Aggressive, 2048, &None),
        "   Docker Cleanup (Aggressive profile):\n     Total reclaimable: 2KB\n     (Analysis only - use --execute to clean)"
    );
    let r = CleanupResult { dangling_images_removed: 1, unused_images_removed: 2, networks_removed: 3, build_cache_reclaimed: 0, stopped_containers_removed: 4, space_reclaimed_bytes: 1024, errors: vec![] };
    assert_eq!(
        docker_cleanup_report(CleanupProfile::Conservative, 0, &Some(r)),
        "   Docker Cleanup (Conservative profile):\n     Total reclaimable: 0B\n     Removed: 10 items\n     Reclaimed: 1KB"
    );
}

#[test]
fn os_cleanup() {
    assert_eq!(plan_os_cleanup(false, false, false, true, false), None);
    assert_eq!(plan_os_cleanup(true, false, false, true, false), Some(OsCleanupPlan { clean_cache: true, autoremove: false, run: true }));
    assert_eq!(plan_os_cleanup(false, false, true, true, true), Some(OsCleanupPlan { clean_cache: true, autoremove: true, run: false }));
    assert_eq!(plan_os_cleanup(false, true, false, false, false), Some(OsCleanupPlan { clean_cache: false, autoremove: true, run: false }));
    assert_eq!(clean_cache_args(PackageManager::Dnf), strings(&["dnf", "clean", "all"]));
    assert_eq!(autoremove_args(PackageManager::Apt), strings(&["apt", "autoremove", "-y"]));
    let both = OsCleanupPlan { clean_cache: true, autoremove: true, run: true };
    assert_eq!(
        os_cleanup_report(PackageManager::Dnf, &both, true, Some("42 files removed\nmore"), Some("Removing a\nnothing\nb removed\nRemoved c")),
        "   OS Cleanup:\n     Package cache cleaned: 42 files removed\n     Removed 2 unused packages"
    );
    assert_eq!(
        os_cleanup_report(PackageManager::Dnf, &both, true, Some(""), Some("Nothing to do")),
        "   OS Cleanup:\n     Package cache cleaned: done\n     No unused packages to remove"
    );
    let named = OsCleanupPlan { clean_cache: true, autoremove: true, run: false };
    assert_eq!(
        os_cleanup_report(PackageManager::Pacman, &named, false, None, None),
        "   OS Cleanup:\n     Package cache: pacman clean all (not executed)\n     Autoremove: pacman autoremove (not executed)\n     (Analysis only - use --execute to clean)"
    );
    let cache_only = OsCleanupPlan { clean_cache: true, autoremove: false, run: false };
    assert_eq!(
        os_cleanup_report(PackageManager::Apt, &cache_only, true, None, None),
        "   OS Cleanup:\n     Package cache: apt clean all (not executed)"
    );
    assert!(is_confirmed("y"));
    assert!(is_confirmed(" Y \n"));
    assert!(!is_confirmed("yes"));
    assert!(!is_confirmed(""));
}

#[test]
fn image_requests_and_listings() {
    assert!(matches!(image_request(false, None), ImageRequest::Unspecified));
    assert!(matches!(image_request(true, Some("x")), ImageRequest::All));
    match image_request(false, Some(" nginx:latest , redis:7,,")) {
        ImageRequest::Listed(v) => assert_eq!(v, strings(&["nginx:latest", "redis:7", "", ""])),
        _ => panic!("list not read"),
    }
    assert_eq!(parse_image_list("nginx:latest\n<none>:<none>\n  redis:7  \nbad:<none>\n\n"), strings(&["nginx:latest", "redis:7", ""]));
    assert_eq!(parse_container_names("web:nginx:latest\n  db : postgres\n:orphan\n\nsolo\n"), strings(&["web", "db", "solo"]));
    assert_eq!(list_images_args(), strings(&["images", "--format", "{{.Repository}}:{{.Tag}}"]));
    assert_eq!(pull_args("nginx:latest"), strings(&["pull", "nginx:latest"]));
    assert_eq!(dependents_args("nginx:latest"), strings(&["ps", "--format", "{{.Names}}:{{.Image}}", "--filter", "ancestor=nginx:latest"]));
    assert_eq!(restart_args("web"), strings(&["restart", "web"]));
    assert_eq!(early_answer(false, 5, true), Some("No images specified (use --all or --images)".to_string()));
    assert_eq!(early_answer(true, 0, false), Some("No images found".to_string()));
    assert_eq!(early_answer(true, 3, true), Some("3 images would be updated".to_string()));
    assert_eq!(early_answer(true, 3, false), None);
}

#[test]
fn restart_policy() {
    let none: Vec<String> = vec![];
    assert!(should_restart_container("web", "all-except-webhook", &none));
    assert!(!should_restart_container("stack_updatectl_webhook_1", "all-except-webhook", &none));
    assert!(!should_restart_container("web", "none", &none));
    assert!(should_restart_container("web", "something-else", &none));
    assert!(!should_restart_container("updatectl_webhook", "something-else", &none));
    assert!(!should_restart_container("my-database-1", "all-except-webhook", &strings(&["cache", "database"])));
    assert!(should_restart_container("my-Database-1", "all-except-webhook", &strings(&["database"])));
    assert!(!should_restart_container("anything", "all-except-webhook", &strings(&[""])));
    assert_eq!(
        get_restart_exclusions("Cloud VM1", Some(" traefik, ,db "), Some("cloud vm1:redis, other:web ,CLOUD VM1 : a:b ,noserver, cloud vm1:")),
        strings(&["traefik", "db", "redis", "a:b", ""])
    );
    assert!(get_restart_exclusions("x", None, None).is_empty());
    let plan = restart_plan(&strings(&["web", "db", "updatectl_webhook", "cache"]), "all-except-webhook", &strings(&["db"]));
    assert_eq!(plan.to_restart, strings(&["web", "cache"]));
    assert_eq!(plan.skipped, 2);
    assert_eq!(restart_plan(&strings(&["web"]), "none", &none).skipped, 1);
}

#[test]
fn update_tally() {
    let mut t = UpdateTally::new();
    assert_eq!(t.message("all-except-webhook"), "Updated 0 images");
    assert!(t.record_pull(true));
    assert!(!t.record_pull(false));
    assert!(t.record_pull(true));
    let plan = restart_plan(&strings(&["web", "updatectl_webhook"]), "all-except-webhook", &vec![]);
    t.record_plan(&plan);
    t.record_restart(true);
    t.record_restart(false);
    t.record_restart(true);
    assert_eq!(t, UpdateTally { updated: 2, failed: 1, restarted: 2, restart_failed: 1, skipped: true });
    assert_eq!(t.message("all-except-webhook"), "Updated 2 images, 1 failed, restarted 2 containers, 1 restart failures, some containers excluded from restart");
    assert_eq!(t.message("none"), "Updated 2 images, 1 failed, restarted 2 containers, 1 restart failures, no containers restarted (policy: none)");
    let mut full = UpdateTally { updated: u64::MAX, failed: 0, restarted: 0, restart_failed: 0, skipped: false };
    full.record_pull(true);
    assert_eq!(full.updated, u64::MAX);
    let mut quiet = UpdateTally::new();
    quiet.record_plan(&restart_plan(&strings(&["web"]), "all-except-webhook", &vec![]));
    assert!(!quiet.skipped);
}

#[test]
fn gotify_keys_and_messages() {
    assert_eq!(resolve_gotify_key(Some(" abc \n"), &KeyFile::Read("file".to_string())), Some(("abc".to_string(), KeySource::Variable)));
    assert_eq!(resolve_gotify_key(Some("  "), &KeyFile::Read("file".to_string())), None);
    assert_eq!(resolve_gotify_key(None, &KeyFile::Read(" file\n".to_string())), Some(("file".to_string(), KeySource::File)));
    assert_eq!(resolve_gotify_key(None, &KeyFile::Read("\n".to_string())), None);
    assert_eq!(resolve_gotify_key(None, &KeyFile::Unreadable), None);
    assert_eq!(resolve_gotify_key(None, &KeyFile::NotConfigured), None);
    assert!(flag_enabled(Some("1")));
    assert!(flag_enabled(Some("TRUE")));
    assert!(!flag_enabled(Some("yes")));
    assert!(!flag_enabled(Some(" 1")));
    assert!(!flag_enabled(None));
    assert_eq!(mask_key("abcdefg"), "abc***efg");
    assert_eq!(mask_key("abcdef"), "***");
    assert_eq!(mask_key(""), "***");
    assert_eq!(mask_key("ünïcödé-key"), "ünï***key");
    let m = gotify_message(None, "k", "t", "b");
    assert_eq!((m.url.as_str(), m.key.as_str(), m.title.as_str(), m.message.as_str(), m.priority), ("http://localhost:8080/message", "k", "t", "b", 5));
    assert_eq!(gotify_message(Some("http://g/message"), "k", "t", "b").url, "http://g/message");
}

#[test]
fn ntfy_messages() {
    assert_eq!(ntfy_message(None, None, None, "t", "b", None), None);
    assert_eq!(ntfy_message(None, Some("  "), None, "t", "b", None), None);
    let m = ntfy_message(None, Some(" updates "), None, "t", "b", None).unwrap();
    assert_eq!(m.endpoint, "https://ntfy.sh");
    assert_eq!(m.topic, "updates");
    assert_eq!((m.title.as_str(), m.message.as_str(), m.priority, m.markdown), ("t", "b", 4, true));
    assert!(m.actions.is_empty());
    assert_eq!(m.authorization, None);
    let actions = vec![NtfyAction::http_post("Go", "http://x")];
    let m = ntfy_message(Some("https://ntfy.example.org///"), Some("x"), Some("tk_1"), "t", "b", Some(actions.clone())).unwrap();
    assert_eq!(m.endpoint, "https://ntfy.example.org");
    assert_eq!(m.authorization, Some("Bearer tk_1".to_string()));
    assert_eq!(m.actions, actions);
    assert_eq!(ntfy_message(Some("/"), Some("x"), None, "t", "b", Some(vec![])).unwrap().endpoint, "");
}

#[test]
fn retries() {
    assert_eq!(default_backoff(), BackoffConfig { min_delay_ms: 100, max_delay_ms: 30000, max_retries: 3 });
    assert_eq!(backoff_with_config(1, 2, 3), BackoffConfig { min_delay_ms: 1, max_delay_ms: 2, max_retries: 3 });
    let f = |t, c, s| HttpFailure { is_timeout: t, is_connect: c, status: s };
    assert!(is_retryable_http_error(&f(true, false, Some(404))));
    assert!(is_retryable_http_error(&f(false, true, None)));
    assert!(is_retryable_http_error(&f(false, false, Some(500))));
    assert!(is_retryable_http_error(&f(false, false, Some(599))));
    assert!(is_retryable_http_error(&f(false, false, Some(429))));
    assert!(!is_retryable_http_error(&f(false, false, Some(600))));
    assert!(!is_retryable_http_error(&f(false, false, Some(499))));
    assert!(!is_retryable_http_error(&f(false, false, Some(404))));
    assert!(!is_retryable_http_error(&f(false, false, None)));
    let b = default_backoff();
    assert!(should_retry(&b, 1, true));
    assert!(should_retry(&b, 3, true));
    assert!(!should_retry(&b, 4, true));
    assert!(!should_retry(&b, 1, false));
}
