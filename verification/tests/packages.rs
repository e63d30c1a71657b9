use fleetops::packages::{
    get_checker, AptChecker, DnfChecker, PackageManager, PacmanChecker, UpdateChecker,
};

#[test]
fn test_parse_dnf_output() {
    let checker = DnfChecker;
    let output = r#"docker-ce.x86_64                    3:25.0.0-1.fc39                    docker-ce-stable
kernel.x86_64                       6.6.8-200.fc39                     updates
vim-enhanced.x86_64                 2:9.0.2120-1.fc39                  updates
"#;

    let updates = checker.parse_updates(output);

    assert_eq!(updates.len(), 3);
    assert_eq!(updates[0], "docker-ce");
    assert_eq!(updates[1], "kernel");
    assert_eq!(updates[2], "vim-enhanced");
}

#[test]
fn dnf_test_parse_empty_output() {
    let checker = DnfChecker;
    let output = "";

    let updates = checker.parse_updates(output);
    assert_eq!(updates.len(), 0);
}

#[test]
fn test_parse_apt_output() {
    let checker = AptChecker;
    let output = r#"Listing...
docker-ce/jammy 5:25.0.0-1~ubuntu.22.04~jammy amd64 [upgradable from: 5:24.0.7-1~ubuntu.22.04~jammy]
linux-image-generic/jammy-security 5.15.0.91.89 amd64 [upgradable from: 5.15.0.89.87]
vim/jammy 2:8.2.3995-1ubuntu2.15 amd64 [upgradable from: 2:8.2.3995-1ubuntu2.14]
"#;

    let updates = checker.parse_updates(output);

    assert_eq!(updates.len(), 3);
    assert_eq!(updates[0], "docker-ce");
    assert_eq!(updates[1], "linux-image-generic (security)");
    assert_eq!(updates[2], "vim");
}

#[test]
fn apt_test_parse_empty_output() {
    let checker = AptChecker;
    let output = "Listing...\n";

    let updates = checker.parse_updates(output);
    assert_eq!(updates.len(), 0);
}

#[test]
fn test_parse_pacman_output() {
    let checker = PacmanChecker;
    let output = r#"docker 1:25.0.0-1 -> 1:25.0.1-1
linux 6.6.8.arch1-1 -> 6.6.9.arch1-1
vim 9.0.2120-1 -> 9.0.2121-1
"#;

    let updates = checker.parse_updates(output);

    assert_eq!(updates.len(), 3);
    assert_eq!(updates[0], "docker");
    assert_eq!(updates[1], "linux");
    assert_eq!(updates[2], "vim");
}

#[test]
fn pacman_test_parse_empty_output() {
    let checker = PacmanChecker;
    let output = "";

    let updates = checker.parse_updates(output);
    assert_eq!(updates.len(), 0);
}

#[test]
fn dnf_single_line_scenario() {
    let updates =
        DnfChecker.parse_updates("docker-ce.x86_64   3:25.0.0-1.fc39   docker-ce-stable");
    assert_eq!(updates, vec!["docker-ce".to_string()]);
}

#[test]
fn apt_single_line_scenario() {
    let updates = AptChecker.parse_updates(
        "Listing...\nlinux-image-generic/jammy-security 5.15.0.91 amd64 [upgradable from: 5.15.0.89]",
    );
    assert_eq!(updates, vec!["linux-image-generic (security)".to_string()]);
}

#[test]
fn apt_marks_security_by_the_repository_component_only() {
    let updates = AptChecker.parse_updates(
        "Listing...\nlib-security-tools/jammy 1.0 amd64 [upgradable from: 0.9]\nfoo/jammy-security,jammy-updates 2 all [upgradable from: 1]\nbar/jammy 2-security amd64 [upgradable from: 1]\n",
    );
    assert_eq!(
        updates,
        vec![
            "lib-security-tools".to_string(),
            "foo (security)".to_string(),
            "bar".to_string()
        ]
    );
}

#[test]
fn apt_skips_the_header_even_if_it_looks_like_an_update() {
    let updates = AptChecker.parse_updates("a/b 1 x [upgradable from: 0]\nc/d 1 x [upgradable from: 0]\n");
    assert_eq!(updates, vec!["c".to_string()]);
}

#[test]
fn dnf_drops_comments_blank_and_short_lines() {
    let out = "# comment line here now\n\n   \nObsoleting Packages\nfoo.noarch 1.0 updates\r\nbar 2.0 repo\n";
    let updates = DnfChecker.parse_updates(out);
    assert_eq!(updates, vec!["foo".to_string(), "bar".to_string()]);
}

#[test]
fn dnf_strips_only_the_architecture() {
    let updates = DnfChecker.parse_updates("python3.11-libs.x86_64  3.11.6-1.fc39  updates\n");
    assert_eq!(updates, vec!["python3.11-libs".to_string()]);
}

#[test]
fn pacman_takes_the_first_field_of_each_line_that_has_one() {
    let updates = PacmanChecker.parse_updates("  docker 1 -> 2\n\n \t \nvim\n");
    assert_eq!(updates, vec!["docker".to_string(), "vim".to_string()]);
}

#[test]
fn check_commands() {
    assert_eq!(AptChecker.check_command(), ("apt", vec!["list", "--upgradable"]));
    assert_eq!(
        DnfChecker.check_command(),
        ("/usr/bin/dnf", vec!["check-update", "--quiet", "--cacheonly"])
    );
    assert_eq!(PacmanChecker.check_command(), ("/usr/bin/checkupdates", vec![]));
}

#[test]
fn get_checker_dispatches_by_package_manager() {
    let out = "docker 1 -> 2\n";
    assert_eq!(get_checker(&PackageManager::Pacman).parse_updates(out), vec!["docker".to_string()]);
    assert_eq!(get_checker(&PackageManager::Dnf).check_command().0, "/usr/bin/dnf");
    assert_eq!(get_checker(&PackageManager::Apt).check_command().0, "apt");
    assert_eq!(get_checker(&PackageManager::Dnf).parse_updates(out).len(), 1);
    assert_eq!(get_checker(&PackageManager::Apt).parse_updates(out).len(), 0);
}

#[test]
fn package_manager_names() {
    assert_eq!(PackageManager::Apt.binary(), "apt");
    assert_eq!(PackageManager::Dnf.binary(), "dnf");
    assert_eq!(PackageManager::Pacman.binary(), "pacman");
    assert_eq!(PackageManager::Apt.display_name(), "APT (Debian/Ubuntu)");
    assert_eq!(PackageManager::Dnf.display_name(), "DNF (Fedora/RHEL)");
    assert_eq!(PackageManager::Pacman.display_name(), "Pacman (Arch)");
    assert_eq!(
        PackageManager::all(),
        vec![PackageManager::Apt, PackageManager::Dnf, PackageManager::Pacman]
    );
}
