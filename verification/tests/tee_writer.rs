use analyzer::config::modules::{TeeConfig, TeeMode};
use analyzer::config::tee_writer::{sanitize_slug, should_tee};


#[test]
fn test_sanitize_slug() {
    assert_eq!(sanitize_slug("cargo_test"), "cargo_test");
    assert_eq!(sanitize_slug("cargo test"), "cargo_test");
    assert_eq!(sanitize_slug("cargo-test"), "cargo-test");
    assert_eq!(sanitize_slug("go/test/./pkg"), "go_test___pkg");
    let long = "a".repeat(50);
    assert_eq!(sanitize_slug(&long).len(), 40);
}

#[test]
fn test_should_tee_disabled() {
    let config = TeeConfig {
        enabled: false,
        ..TeeConfig::default()
    };
    let dir = "/tmp/tee".to_string();
    assert!(should_tee(&config, 1000, 1, Some(dir)).is_none());
}

#[test]
fn test_should_tee_never_mode() {
    let config = TeeConfig {
        mode: TeeMode::Never,
        ..TeeConfig::default()
    };
    let dir = "/tmp/tee".to_string();
    assert!(should_tee(&config, 1000, 1, Some(dir)).is_none());
}

#[test]
fn test_should_tee_skip_small_output() {
    let config = TeeConfig::default();
    let dir = "/tmp/tee".to_string();
    assert!(should_tee(&config, 100, 1, Some(dir)).is_none());
}

#[test]
fn test_should_tee_skip_success_in_failures_mode() {
    let config = TeeConfig::default();
    let dir = "/tmp/tee".to_string();
    assert!(should_tee(&config, 1000, 0, Some(dir)).is_none());
}

#[test]
fn test_should_tee_proceed_on_failure() {
    let config = TeeConfig::default();
    let dir = "/tmp/tee".to_string();
    assert!(should_tee(&config, 1000, 1, Some(dir)).is_some());
}

#[test]
fn test_should_tee_always_mode_success() {
    let config = TeeConfig {
        mode: TeeMode::Always,
        ..TeeConfig::default()
    };
    let dir = "/tmp/tee".to_string();
    assert!(should_tee(&config, 1000, 0, Some(dir)).is_some());
}
