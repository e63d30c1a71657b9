use fleetops::health::{
    build_ignore_set, container_is_ignored, container_name, container_short_id, evaluate_container,
    health_report, set_holds, should_ignore, ContainerObservation, HealthState, HealthThresholds,
    Percent, StatsFrame, Threshold,
};

fn frame() -> StatsFrame {
    StatsFrame {
        total_usage: 2_000,
        pre_total_usage: 1_000,
        system_cpu_usage: Some(20_000),
        pre_system_cpu_usage: Some(10_000),
        online_cpus: Some(4),
        percpu_count: Some(8),
        memory_usage: Some(512),
        memory_limit: Some(2048),
    }
}

fn text(p: Percent) -> String {
    let mut v = Vec::new();
    p.push_text(&mut v);
    v.into_iter().collect()
}

fn observed(running: bool, health: HealthState, stats: Option<StatsFrame>) -> ContainerObservation {
    ContainerObservation {
        name: "web".to_string(),
        short_id: "0123456789ab".to_string(),
        running,
        health,
        stats,
    }
}

fn strings(v: &[&str]) -> Vec<String> {
    v.iter().map(|s| s.to_string()).collect()
}

#[test]
fn cpu_percent_by_the_docker_formula() {
    let p = frame().cpu_percent().unwrap();
    assert_eq!(p, Percent { negative: false, num: 4000, den: 10_000 });
    assert_eq!(text(p), "40.0");
    let mut f = frame();
    f.online_cpus = None;
    assert_eq!(text(f.cpu_percent().unwrap()), "80.0");
    f.percpu_count = None;
    assert_eq!(text(f.cpu_percent().unwrap()), "10.0");
}

#[test]
fn cpu_percent_is_absent_when_the_system_counter_did_not_advance() {
    let mut f = frame();
    f.system_cpu_usage = Some(10_000);
    assert_eq!(f.cpu_percent(), None);
    f.system_cpu_usage = Some(9_999);
    assert_eq!(f.cpu_percent(), None);
    f.system_cpu_usage = None;
    assert_eq!(f.cpu_percent(), None);
    f.system_cpu_usage = Some(20_000);
    f.pre_system_cpu_usage = None;
    assert_eq!(f.cpu_percent(), None);
}

#[test]
fn cpu_percent_of_an_idle_container_is_zero_not_absent() {
    let mut f = frame();
    f.total_usage = 1_000;
    let p = f.cpu_percent().unwrap();
    assert_eq!(text(p), "0.0");
    f.total_usage = 900;
    let n = f.cpu_percent().unwrap();
    assert!(n.negative);
    assert_eq!(text(n), "-4.0");
    assert!(!n.is_above(Threshold { hundredths: 0 }));
}

#[test]
fn memory_percent() {
    assert_eq!(text(frame().memory_percent().unwrap()), "25.0");
    let mut f = frame();
    f.memory_limit = Some(0);
    assert_eq!(f.memory_percent(), None);
    f.memory_limit = None;
    assert_eq!(f.memory_percent(), None);
    f.memory_limit = Some(3);
    f.memory_usage = Some(1);
    assert_eq!(text(f.memory_percent().unwrap()), "33.3");
    f.memory_usage = Some(2);
    assert_eq!(text(f.memory_percent().unwrap()), "66.7");
    f.memory_usage = None;
    assert_eq!(f.memory_percent(), None);
}

#[test]
fn percent_rounds_half_to_even() {
    assert_eq!(text(Percent { negative: false, num: 1, den: 800 }), "0.1");
    assert_eq!(text(Percent { negative: false, num: 1, den: 2000 }), "0.0");
    assert_eq!(text(Percent { negative: false, num: 3, den: 2000 }), "0.2");
    assert_eq!(text(Percent { negative: false, num: 12345, den: 100 }), "12345.0");
}

#[test]
fn thresholds_compare_exactly() {
    let p = Percent { negative: false, num: 85, den: 100 };
    assert!(!p.is_above(Threshold { hundredths: 8500 }));
    assert!(p.is_above(Threshold { hundredths: 8499 }));
    assert!(!p.is_above(Threshold { hundredths: 8501 }));
    assert_eq!(Threshold { hundredths: 8550 }.whole_percent(), 86);
    assert_eq!(Threshold { hundredths: 8450 }.whole_percent(), 84);
    assert_eq!(Threshold { hundredths: 8449 }.whole_percent(), 84);
}

#[test]
fn healthy_running_container_has_no_issue() {
    let th = HealthThresholds { cpu: Some(Threshold { hundredths: 8500 }), memory: Some(Threshold { hundredths: 9000 }) };
    assert_eq!(evaluate_container(&observed(true, HealthState::Healthy, Some(frame())), &th), None);
    assert_eq!(evaluate_container(&observed(true, HealthState::Unchecked, None), &th), None);
}

#[test]
fn problematic_containers_get_an_issue_line() {
    let none = HealthThresholds { cpu: None, memory: None };
    assert_eq!(
        evaluate_container(&observed(false, HealthState::Unchecked, None), &none),
        Some("web (0123456789ab) | state: exited".to_string())
    );
    assert_eq!(
        evaluate_container(&observed(true, HealthState::Unhealthy, Some(frame())), &none),
        Some("web (0123456789ab) | CPU 40.0% | MEM 25.0% | state: running | health: unhealthy".to_string())
    );
    assert_eq!(
        evaluate_container(&observed(true, HealthState::Starting, None), &none),
        Some("web (0123456789ab) | state: running | health: starting".to_string())
    );
    let cpu = HealthThresholds { cpu: Some(Threshold { hundredths: 3999 }), memory: None };
    assert_eq!(
        evaluate_container(&observed(true, HealthState::Healthy, Some(frame())), &cpu),
        Some("web (0123456789ab) | CPU 40.0% | MEM 25.0% | state: running | health: healthy".to_string())
    );
    let mem = HealthThresholds { cpu: Some(Threshold { hundredths: 4000 }), memory: Some(Threshold { hundredths: 2499 }) };
    assert!(evaluate_container(&observed(true, HealthState::Healthy, Some(frame())), &mem).is_some());
    let mut unknown = frame();
    unknown.system_cpu_usage = Some(5);
    assert_eq!(
        evaluate_container(&observed(false, HealthState::Healthy, Some(unknown)), &cpu),
        Some("web (0123456789ab) | MEM 25.0% | state: exited | health: healthy".to_string())
    );
}

#[test]
fn health_report_texts() {
    let ok = health_report(&vec![], 7, false);
    assert_eq!(ok.title, "Docker Health: OK");
    assert_eq!(ok.body, "All containers OK (7 checked)");
    assert!(!ok.notify);
    assert!(health_report(&vec![], 0, true).notify);
    let bad = health_report(&strings(&["a | state: exited", "b | state: exited"]), 3, false);
    assert_eq!(bad.title, "Docker Health: Issues");
    assert_eq!(bad.body, "2 issue(s) detected\na | state: exited\nb | state: exited");
    assert!(bad.notify);
}

#[test]
fn ignore_set_from_command_line_and_configuration() {
    assert_eq!(
        build_ignore_set(&strings(&[" Web ", "", "  ", "DB"]), Some("Cache,queue\n  Worker \t x,,")),
        strings(&["web", "db", "cache", "queue", "worker", "x"])
    );
    assert_eq!(build_ignore_set(&vec![], None), Vec::<String>::new());
    assert_eq!(build_ignore_set(&strings(&["ÀB"]), Some("")), strings(&["àb"]));
}

#[test]
fn ignoring_by_name_id_short_id_or_service() {
    let set = strings(&["web", "0123456789ab", "svc"]);
    assert!(should_ignore(&set, " Web ", "ffff", "ffff", None));
    assert!(should_ignore(&set, "x", "0123456789AB", "", None));
    assert!(should_ignore(&set, "x", "0123456789abcdef", "0123456789ab", None));
    assert!(should_ignore(&set, "x", "y", "z", Some("SVC")));
    assert!(!should_ignore(&set, "x", "y", "z", Some("other")));
    assert!(!should_ignore(&set, "x", "y", "", None));
    assert!(!should_ignore(&vec![], "web", "web", "web", Some("web")));
    assert!(!should_ignore(&strings(&[""]), "", " ", "", Some("")));
    assert!(set_holds(&set, "svc"));
    assert!(!set_holds(&set, "SVC"));
}

#[test]
fn a_twelve_character_prefix_of_a_long_id_ignores_the_container() {
    let set = build_ignore_set(&strings(&["0123456789AB"]), None);
    let id = "0123456789abcdef0123456789abcdef0123456789abcdef0123456789abcdef";
    assert!(container_is_ignored(&set, &Some(strings(&["/web"])), id, None));
    assert!(!container_is_ignored(&set, &Some(strings(&["/web"])), "ff23456789abcdef", None));
    assert!(container_is_ignored(&strings(&["web"]), &Some(strings(&["/web", "/alias"])), id, None));
    assert!(container_is_ignored(&strings(&["api"]), &None, id, Some("api")));
}

#[test]
fn container_names() {
    assert_eq!(container_name(&Some(strings(&["//web", "/x"])), "0123456789abcdef"), "web");
    assert_eq!(container_name(&Some(vec![]), "0123456789abcdef"), "0123456789ab");
    assert_eq!(container_name(&None, "short"), "short");
    assert_eq!(container_short_id("0123456789abcdef"), "0123456789ab");
    assert_eq!(container_short_id(""), "");
    assert_eq!(HealthState::Unchecked.as_str(), "none");
    assert_eq!(HealthState::Healthy.as_str(), "healthy");
}
