use analyzer::config::env_loader::{apply_env_vars, EnvVars};
use analyzer::config::{AppConfig, TeeMode};

/// The variables with only `name` set, to `value`.
fn env_with(name: &str, value: &str) -> EnvVars {
    let mut e = EnvVars {
        format: None,
        verbosity: None,
        verbose: None,
        strip_ansi: None,
        max_lines: None,
        max_line_length: None,
        tee: None,
        tee_dir: None,
        tee_mode: None,
    };
    let v = Some(value.to_string());
    match name {
        "ANALYZER_FORMAT" => e.format = v,
        "ANALYZER_VERBOSITY" => e.verbosity = v,
        "ANALYZER_VERBOSE" => e.verbose = v,
        "ANALYZER_STRIP_ANSI" => e.strip_ansi = v,
        "ANALYZER_MAX_LINES" => e.max_lines = v,
        "ANALYZER_MAX_LINE_LENGTH" => e.max_line_length = v,
        "ANALYZER_TEE" => e.tee = v,
        "ANALYZER_TEE_DIR" => e.tee_dir = v,
        "ANALYZER_TEE_MODE" => e.tee_mode = v,
        _ => panic!("unknown variable {}", name),
    }
    e
}

#[test]
fn test_apply_env_vars_format() {
    let env = env_with("ANALYZER_FORMAT", "json");
    let mut config = AppConfig::default();
    assert_eq!(config.report.format, "markdown");
    apply_env_vars(&mut config, &env);
    assert_eq!(config.report.format, "json");
}
#[test]
fn test_apply_env_vars_verbosity() {
    let env = env_with("ANALYZER_VERBOSITY", "minimal");
    let mut config = AppConfig::default();
    apply_env_vars(&mut config, &env);
    assert_eq!(config.report.verbosity, "minimal");
}
#[test]
fn test_apply_env_vars_verbose_true() {
    let env = env_with("ANALYZER_VERBOSE", "true");
    let mut config = AppConfig::default();
    apply_env_vars(&mut config, &env);
    assert_eq!(config.report.verbosity, "verbose");
}
#[test]
fn test_apply_env_vars_verbose_false() {
    let env = env_with("ANALYZER_VERBOSE", "false");
    let mut config = AppConfig::default();
    config.report.verbosity = "verbose".to_string();
    apply_env_vars(&mut config, &env);
    assert_eq!(config.report.verbosity, "normal");
}
#[test]
fn test_apply_env_vars_strip_ansi() {
    let env = env_with("ANALYZER_STRIP_ANSI", "false");
    let mut config = AppConfig::default();
    assert!(config.filter.strip_ansi); // default is true
    apply_env_vars(&mut config, &env);
    assert!(!config.filter.strip_ansi);
}
#[test]
fn test_apply_env_vars_max_lines() {
    let env = env_with("ANALYZER_MAX_LINES", "500");
    let mut config = AppConfig::default();
    apply_env_vars(&mut config, &env);
    assert_eq!(config.filter.max_lines, 500);
}
#[test]
fn test_apply_env_vars_max_line_length() {
    let env = env_with("ANALYZER_MAX_LINE_LENGTH", "200");
    let mut config = AppConfig::default();
    apply_env_vars(&mut config, &env);
    assert_eq!(config.filter.max_line_length, 200);
}
#[test]
fn test_apply_env_vars_tee_enabled() {
    let env = env_with("ANALYZER_TEE", "true");
    let mut config = AppConfig::default();
    config.tee.enabled = false;
    apply_env_vars(&mut config, &env);
    assert!(config.tee.enabled);
}
#[test]
fn test_apply_env_vars_tee_disabled() {
    let env = env_with("ANALYZER_TEE", "false");
    let mut config = AppConfig::default();
    config.tee.enabled = true;
    apply_env_vars(&mut config, &env);
    assert!(!config.tee.enabled);
}
#[test]
fn test_apply_env_vars_tee_dir() {
    let env = env_with("ANALYZER_TEE_DIR", "/tmp/analyzer-logs");
    let mut config = AppConfig::default();
    apply_env_vars(&mut config, &env);
    assert_eq!(
        config.tee.directory,
        Some("/tmp/analyzer-logs".to_string())
    );
}
#[test]
fn test_apply_env_vars_tee_mode() {
    let env = env_with("ANALYZER_TEE_MODE", "always");
    let mut config = AppConfig::default();
    apply_env_vars(&mut config, &env);
    assert_eq!(config.tee.mode, TeeMode::Always);
}
