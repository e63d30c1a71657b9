use fleetops::inventory::{
    failed_report, format_summary, format_table, format_update_summary,
    generate_server_action_buttons, parse_report_summary, server_notification, server_report,
    DockerCheck, DockerImage, ServerSummary,
};
use fleetops::notify::WebhookLink;
use fleetops::packages::PackageManager;
use fleetops::server::Server;

fn strings(v: &[&str]) -> Vec<String> {
    v.iter().map(|s| s.to_string()).collect()
}

fn img(name: &str, tag: &str, has_update: bool) -> DockerImage {
    DockerImage { name: name.to_string(), current_tag: tag.to_string(), has_update }
}

fn link(secret: &str) -> WebhookLink {
    WebhookLink { base_url: "http://updatectl_webhook:8080".to_string(), secret: secret.to_string() }
}

#[test]
fn docker_image_display() {
    assert_eq!(img("nginx", "latest", true).to_display(), "nginx:latest (update available)");
    assert_eq!(img("nginx", "latest", false).to_display(), "nginx:latest");
}

#[test]
fn report_of_an_up_to_date_server() {
    let s = Server::parse("web:root@h").unwrap();
    let r = server_report(&s, &s.display_host(), PackageManager::Apt, &vec![], &DockerCheck::Skipped);
    assert_eq!(r, "🖥️  web (root@h)\n   Package Manager: APT (Debian/Ubuntu)\n   OS: ✅ Up to date");
    let r = server_report(&s, "root@h", PackageManager::Dnf, &vec![], &DockerCheck::Images(vec![]));
    assert_eq!(
        r,
        "🖥️  web (root@h)\n   Package Manager: DNF (Fedora/RHEL)\n   OS: ✅ Up to date\n   Docker: No images found"
    );
    let r = server_report(&s, "root@h", PackageManager::Pacman, &vec![], &DockerCheck::Images(vec![img("a", "1", false), img("b", "2", false)]));
    assert_eq!(
        r,
        "🖥️  web (root@h)\n   Package Manager: Pacman (Arch)\n   OS: ✅ Up to date\n   Docker: ✅ 2 images up to date"
    );
}

#[test]
fn report_lists_five_updates_and_counts_the_rest() {
    let s = Server::local();
    let updates = strings(&["a", "b", "c", "d", "e", "f", "g"]);
    let images: Vec<DockerImage> = (0..8).map(|i| img(&format!("i{}", i), "t", i != 3)).collect();
    let r = server_report(&s, "local", PackageManager::Apt, &updates, &DockerCheck::Images(images));
    assert_eq!(
        r,
        "🖥️  localhost (local)
   Package Manager: APT (Debian/Ubuntu)
   OS: 📦 7 updates available
      - a
      - b
      - c
      - d
      - e
      ... and 2 more
   Docker: 🐳 7 of 8 images with updates
      - i0:t (update available)
      - i1:t (update available)
      - i2:t (update available)
      - i4:t (update available)
      - i5:t (update available)
      ... and 2 more with updates"
    );
    let five = server_report(&s, "local", PackageManager::Apt, &strings(&["a", "b", "c", "d", "e"]), &DockerCheck::Failed("boom".to_string()));
    assert_eq!(
        five,
        "🖥️  localhost (local)\n   Package Manager: APT (Debian/Ubuntu)\n   OS: 📦 5 updates available\n      - a\n      - b\n      - c\n      - d\n      - e\n   Docker: ⚠️  Error: boom"
    );
    assert_eq!(failed_report("web", "no route"), "❌ web - Error: no route");
}

#[test]
fn summaries() {
    assert_eq!(format_summary(&strings(&["OS: ✅ Up to date", "x"])), "✅ All systems up to date (2 servers)");
    assert_eq!(format_summary(&strings(&["a", "   OS: 📦 3 updates available", "c"])), "📦 Updates available (3 servers)");
    assert_eq!(format_summary(&vec![]), "✅ All systems up to date (0 servers)");
    assert_eq!(format_update_summary(&strings(&["ok"]), false), "✅ Updates completed successfully (1 servers)");
    assert_eq!(format_update_summary(&strings(&["ok", "❌ web - Error: x"]), true), "[DRY-RUN] ⚠️  Updates completed with errors (2 servers)");
    assert_eq!(format_update_summary(&strings(&["error in lower case"]), true), "[DRY-RUN] ✅ Updates completed successfully (1 servers)");
}

#[test]
fn action_buttons_for_a_server() {
    let s = Server::parse("Cloud VM1:ubuntu@10.0.0.5").unwrap();
    let both = "   OS: 📦 3 updates available\n   Docker: 🐳 1 of 2 images with updates";
    let a = generate_server_action_buttons(both, &s, &link("t&k"));
    assert_eq!(a.len(), 2);
    assert_eq!(a[0].label, "Update OS");
    assert_eq!(a[0].action, "http");
    assert_eq!(a[0].method, Some("POST".to_string()));
    assert_eq!(a[0].url, Some("http://updatectl_webhook:8080/webhook/update/os?server=Cloud%20VM1&token=t%26k".to_string()));
    assert_eq!(a[1].label, "Update Docker");
    assert_eq!(a[1].url, Some("http://updatectl_webhook:8080/webhook/update/docker/all?server=Cloud%20VM1&token=t%26k".to_string()));
    assert!(generate_server_action_buttons(both, &s, &link("")).is_empty());
    assert_eq!(generate_server_action_buttons("   OS: 📦 3", &s, &link("k")).len(), 1);
    assert!(generate_server_action_buttons("   OS: ✅ Up to date\n Docker: ✅ 2", &s, &link("k")).is_empty());
    assert!(generate_server_action_buttons("📦 without the word", &s, &link("k")).is_empty());
}

#[test]
fn notifications_only_for_servers_with_updates() {
    let s = Server::parse("web:u@h").unwrap();
    assert!(server_notification("   OS: ✅ Up to date", &s, &link("k")).is_none());
    let n = server_notification("   OS: 📦 3 updates available", &s, &link("k")).unwrap();
    assert_eq!(n.title, "web - OS updates available");
    assert_eq!(n.message, "   OS: 📦 3 updates available");
    assert_eq!(n.actions.len(), 1);
    let n = server_notification("OS: ✅\nDocker: 🐳 1 of 2", &s, &link("")).unwrap();
    assert_eq!(n.title, "web - Docker updates available");
    assert!(n.actions.is_empty());
    let n = server_notification("OS: 📦 1\nDocker: 🐳 1 of 2", &s, &link("k")).unwrap();
    assert_eq!(n.title, "web - OS + Docker updates available");
    assert_eq!(n.actions.len(), 2);
}

#[test]
fn report_summaries() {
    let local = Server::local();
    let s = parse_report_summary("🖥️  x (local)\n   OS: ✅ Up to date\n   Docker: ✅ 12 images up to date", &local);
    assert_eq!((s.name.as_str(), s.os_status.as_str(), s.docker_status.as_str(), s.notes.as_str()), ("localhost", "✅ Up to date", "✅ 12/12", "Local server"));
    let cloud = Server::parse("c:ubuntu@cloud-1").unwrap();
    let s = parse_report_summary("   OS: 📦 12 updates available\n      - a\n   Docker: 🐳 5 of 12 images with updates", &cloud);
    assert_eq!((s.os_status.as_str(), s.docker_status.as_str(), s.notes.as_str()), ("📦 12 available", "🐳 5/12", "Oracle Cloud"));
    let px = Server::parse("p:root@10.0.0.1").unwrap();
    let s = parse_report_summary("   Docker: No images found", &px);
    assert_eq!((s.os_status.as_str(), s.docker_status.as_str(), s.notes.as_str()), ("N/A", "No Docker", "Proxmox VE"));
    let other = Server::parse("o:me@h").unwrap();
    let s = parse_report_summary("❌ o - Error: x", &other);
    assert_eq!((s.os_status.as_str(), s.docker_status.as_str(), s.notes.as_str()), ("N/A", "No Docker", "Remote server"));
    let s = parse_report_summary("   Docker: 🐳 5 of 12\n   Docker: ⚠️  Error: x\n   OS: 📦", &other);
    assert_eq!((s.os_status.as_str(), s.docker_status.as_str()), ("N/A", "No Docker"));
    let s = parse_report_summary("   Docker: ✅ 3 images up to date\n   Docker: 🐳 5 of 12\n   OS: 📦 4 x", &other);
    assert_eq!((s.os_status.as_str(), s.docker_status.as_str()), ("📦 4 available", "✅ 3/3"));
}

fn summary(name: &str, os: &str, docker: &str, notes: &str) -> ServerSummary {
    ServerSummary { name: name.to_string(), os_status: os.to_string(), docker_status: docker.to_string(), notes: notes.to_string() }
}

#[test]
fn table_of_summaries() {
    let rows = vec![
        summary("cloud1", "📦 12 available", "🐳 5/12", "Oracle Cloud"),
        summary("tower", "✅ Up to date", "✅ 7/7", "Local server"),
        summary("a-very-long-server-name", "N/A", "No Docker", "Remote server"),
        summary("pve", "📦", "🐳 x/y", "Proxmox VE"),
        summary("cloud2", "📦 3 available", "✅ 2/2", "Oracle Cloud"),
    ];
    let expected = "📊 Infrastructure Update Summary
━━━━━━━━━━━━━━━━━━━━━━━━━━━━━━

Local:
  tower        OS:✅      Docker:✅

Cloud:
  cloud1       OS:📦12    Docker:🐳5/12
  cloud2       OS:📦3     Docker:✅

Proxmox:
  pve          OS:📦?     Docker:🐳x/y

Other:
  a-very-long-server-name OS:N/A    Docker:-

━━━━━━━━━━━━━━━━━━━━━━━━━━━━━━
📊 5 servers | 📦 15 packages | 🐳 21 images
";
    assert_eq!(format_table(&rows), expected);
    assert_eq!(
        format_table(&vec![]),
        "📊 Infrastructure Update Summary\n━━━━━━━━━━━━━━━━━━━━━━━━━━━━━━\n\n━━━━━━━━━━━━━━━━━━━━━━━━━━━━━━\n📊 0 servers | 📦 0 packages | 🐳 0 images\n"
    );
}
