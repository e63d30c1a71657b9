use fleetops::image_update::{Awaiting, DockerUpdateRun, UpdateCommand};

fn strings(v: &[&str]) -> Vec<String> {
    v.iter().map(|s| s.to_string()).collect()
}

#[test]
fn a_run_pulls_lists_and_restarts_in_turn() {
    let mut run = DockerUpdateRun::new(
        strings(&["nginx:latest", "redis:7", "broken:1"]),
        "all-except-webhook",
        strings(&["db"]),
    );
    assert!(run.is_sound());
    assert_eq!(run.awaiting, Awaiting::Start);
    assert_eq!(run.advance(Some("not looked at")), UpdateCommand::Pull("nginx:latest".to_string()));
    assert_eq!(run.advance(Some("pulled")), UpdateCommand::FindDependents("nginx:latest".to_string()));
    assert_eq!(
        run.advance(Some("web\nmy-db-1\n\n updatectl_webhook \ncache\n")),
        UpdateCommand::Restart("web".to_string())
    );
    assert_eq!(run.queue, strings(&["web", "cache"]));
    assert_eq!(run.advance(Some("web")), UpdateCommand::Restart("cache".to_string()));
    assert_eq!(run.advance(None), UpdateCommand::Pull("redis:7".to_string()));
    assert_eq!(run.advance(Some("")), UpdateCommand::FindDependents("redis:7".to_string()));
    assert_eq!(run.advance(None), UpdateCommand::Pull("broken:1".to_string()));
    assert!(run.is_sound());
    let last = "Updated 2 images, 1 failed, restarted 1 containers, 1 restart failures, some containers excluded from restart";
    assert_eq!(run.advance(None), UpdateCommand::Finish(last.to_string()));
    assert_eq!(run.awaiting, Awaiting::Done);
    assert_eq!(run.advance(Some("again")), UpdateCommand::Finish(last.to_string()));
    assert!(run.is_sound());
}

#[test]
fn a_run_without_dependents_moves_on() {
    let mut run = DockerUpdateRun::new(strings(&["a", "b"]), "none", vec![]);
    assert_eq!(run.advance(None), UpdateCommand::Pull("a".to_string()));
    assert_eq!(run.advance(Some("")), UpdateCommand::FindDependents("a".to_string()));
    assert_eq!(run.advance(Some("\n\n")), UpdateCommand::Pull("b".to_string()));
    assert_eq!(run.advance(Some("")), UpdateCommand::FindDependents("b".to_string()));
    assert_eq!(
        run.advance(Some("web\n")),
        UpdateCommand::Finish("Updated 2 images, no containers restarted (policy: none)".to_string())
    );
}

#[test]
fn a_run_over_no_images_ends_at_once() {
    let mut run = DockerUpdateRun::new(vec![], "all-except-webhook", vec![]);
    assert_eq!(run.advance(None), UpdateCommand::Finish("Updated 0 images".to_string()));
}

#[test]
fn a_run_that_lost_its_place_says_so() {
    let mut run = DockerUpdateRun::new(strings(&["a"]), "all-except-webhook", vec![]);
    run.awaiting = Awaiting::Restart;
    assert!(!run.is_sound());
    run.awaiting = Awaiting::Pull;
    assert!(run.is_sound());
    run.current_image = 1;
    assert!(!run.is_sound());
}
