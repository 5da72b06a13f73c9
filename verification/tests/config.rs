use analyzer::config::filter_registry::{FilterFile, FilterRegistry, TomlFilterConfig, TomlShortCircuitRule};
use analyzer::config::AppConfig;

/// The built-in Turborepo filter, as a value.
fn turbo_filter_file() -> FilterFile {
    let turbo = TomlFilterConfig {
        description: Some("Strip Turborepo TUI decoration, keep task results".to_string()),
        match_command: r"^(pnpm exec |npx |yarn )?turbo\b".to_string(),
        strip_ansi: Some(true),
        strip_tui_frames: Some(true),
        strip_lines_matching: Some(vec![r"^\s*\d+ packages? in scope".to_string(), r"^\s*• Running".to_string()]),
        keep_lines_matching: None,
        replace: None,
        short_circuit: Some(vec![TomlShortCircuitRule {
            pattern: r"Tasks:\s+\d+ successful".to_string(),
            message: "turbo: all tasks succeeded".to_string(),
            unless: Some("error".to_string()),
        }]),
        max_lines: Some(100),
        truncate_lines_at: None,
        on_empty: None,
    };
    FilterFile { schema_version: Some(1), filters: vec![("turbo".to_string(), turbo)] }
}

#[test]
fn test_find_nonexistent_filter() {
    let registry = FilterRegistry::with_builtin_only(FilterFile::empty());
    let filter = registry.find_filter("nonexistent_command");
    assert!(filter.is_none());
}

#[test]
fn test_app_config_default_has_version() {
    let config = AppConfig::default();
    assert_eq!(config.version, "1.0");
}

#[test]
fn test_find_filter_by_name() {
    let registry = FilterRegistry::with_builtin_only(turbo_filter_file());
    let filter = registry.find_filter_by_name("turbo");
    assert!(filter.is_some());
    assert_eq!(
        filter.unwrap().description.as_deref().unwrap_or(""),
        "Strip Turborepo TUI decoration, keep task results"
    );
}

#[test]
fn test_parse_toml_replace_rules() {
    let registry = FilterRegistry::with_builtin_only(turbo_filter_file());
    let filter = registry.find_filter_by_name("turbo").unwrap();
    let replace_rules = filter.replace.as_ref();
    assert!(replace_rules.is_none() || replace_rules.unwrap().is_empty());
}

#[test]
fn test_parse_toml_short_circuit() {
    let registry = FilterRegistry::with_builtin_only(turbo_filter_file());
    let filter = registry.find_filter_by_name("turbo").unwrap();
    let circuits = filter.short_circuit.as_ref().unwrap();
    assert!(!circuits.is_empty());
}

#[test]
fn turbo_filter_matches_turbo_commands_only() {
    let registry = FilterRegistry::with_builtin_only(turbo_filter_file());
    assert!(registry.find_filter("turbo run lint").is_some());
    assert!(registry.find_filter("pnpm exec turbo run lint").is_some());
    assert!(registry.find_filter("cargo check").is_none());
}
