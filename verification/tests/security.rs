use fleetops::security::{constant_time_compare, verify_webhook_token};

#[test]
fn test_constant_time_compare_equal() {
    assert!(constant_time_compare("secret123", "secret123"));
}

#[test]
fn test_constant_time_compare_not_equal() {
    assert!(!constant_time_compare("secret123", "secret456"));
}

#[test]
fn test_constant_time_compare_different_lengths() {
    assert!(!constant_time_compare("short", "this_is_longer"));
}

#[test]
fn test_constant_time_compare_empty() {
    assert!(constant_time_compare("", ""));
}

#[test]
fn test_constant_time_compare_one_empty() {
    assert!(!constant_time_compare("", "nonempty"));
    assert!(!constant_time_compare("nonempty", ""));
}

#[test]
fn test_verify_webhook_token() {
    assert!(verify_webhook_token("token123", "token123", Some("req-1")));
    assert!(!verify_webhook_token("wrong", "token123", Some("req-2")));
}

#[test]
fn compare_differs_in_one_place_only() {
    assert!(!constant_time_compare("secret123", "secret124"));
    assert!(!constant_time_compare("Secret123", "secret123"));
    assert!(constant_time_compare("naïve ✓", "naïve ✓"));
    assert!(!constant_time_compare("naive ✓", "naïve ✓"));
    assert!(verify_webhook_token("t", "t", None));
}
