use analyzer::analysis::utils::{
    apply_replace_patterns, filter_noise_lines, filter_tui_frame_lines, is_tui_border_line, keep_matching_lines, strip_ansi,
    truncate, OutputPostProcessor, ShortCircuitRule,
};


#[test]
fn test_strip_ansi_basic() {
    let input = "\x1b[31merror\x1b[0m: something failed";
    let result = strip_ansi(input);
    assert_eq!(result, "error: something failed");
}

#[test]
fn test_strip_ansi_complex() {
    let input = "\x1b[1;32mSUCCESS\x1b[0m \x1b[33mWARNING\x1b[0m";
    let result = strip_ansi(input);
    assert_eq!(result, "SUCCESS WARNING");
}

#[test]
fn test_truncate_shorter() {
    assert_eq!(truncate("hi", 10), "hi");
}

#[test]
fn test_truncate_exact() {
    assert_eq!(truncate("hello", 5), "hello");
}

#[test]
fn test_truncate_longer() {
    let result = truncate("hello world", 8);
    assert!(result.ends_with("..."));
    assert!(result.starts_with("hello"));
}

#[test]
fn test_truncate_too_short_for_ellipsis() {
    assert_eq!(truncate("abc", 2), "...");
}

#[test]
fn test_filter_noise_lines() {
    let output = "error: foo\ncache hit\nwarning: bar\n";
    let patterns = vec!["cache (hit|miss)".to_string()];
    let result = filter_noise_lines(output, &patterns);
    assert!(result.contains("error: foo"));
    assert!(result.contains("warning: bar"));
    assert!(!result.contains("cache hit"));
}

#[test]
fn test_keep_matching_lines() {
    let output = "info: start\ncache hit\nerror: fail\ncache miss\n";
    let patterns = vec!["error|warning".to_string()];
    let result = keep_matching_lines(output, &patterns);
    assert!(!result.contains("info: start"));
    assert!(!result.contains("cache"));
    assert!(result.contains("error: fail"));
}

#[test]
fn test_is_tui_border_line() {
    assert!(is_tui_border_line(
        "\u{250c}\u{2500}\u{2500}\u{2500}\u{2510}"
    ));
    assert!(is_tui_border_line(" \u{2502}  \u{2502} "));
    assert!(!is_tui_border_line("error in file.rs"));
}

#[test]
fn test_filter_tui_frame_lines_removes_borders() {
    let output = "\u{250c}\u{2500}\u{2500}\u{2500}\u{2510}\nreal content\n\u{2514}\u{2500}\u{2500}\u{2500}\u{2518}";
    let result = filter_tui_frame_lines(output);
    assert_eq!(result, "real content");
}

#[test]
fn test_filter_tui_frame_lines_strips_prefix() {
    let output = "\u{2502} ./main.go:10:5: error: unused variable";
    let result = filter_tui_frame_lines(output);
    assert_eq!(result, "./main.go:10:5: error: unused variable");
}

#[test]
fn test_filter_tui_frame_lines_preserves_indentation() {
    // Regular output lines (no TUI border char) must keep their leading
    // whitespace; indentation-sensitive parsers (e.g. CMake block errors)
    // depend on it.
    let output = "  Cannot find source file:\n    src/main.cpp";
    let result = filter_tui_frame_lines(output);
    assert_eq!(result, "  Cannot find source file:\n    src/main.cpp");
}

#[test]
fn test_replace_patterns() {
    let output = "web:lint:   4:7   error   message";
    let patterns = vec![(r"^\S+:\S+:\s*".to_string(), "".to_string())];
    let result = apply_replace_patterns(output, &patterns);
    assert_eq!(result, "4:7   error   message");
}

#[test]
fn test_short_circuit_match() {
    let processor = OutputPostProcessor::new().with_short_circuits(vec![ShortCircuitRule {
        pattern: "success".to_string(),
        message: "All good".to_string(),
        unless: None,
    }]);
    let result = processor.process("build success!");
    assert_eq!(result, "All good");
}

#[test]
fn test_short_circuit_blocked_by_unless() {
    let processor = OutputPostProcessor::new().with_short_circuits(vec![ShortCircuitRule {
        pattern: ".*".to_string(),
        message: "all good".to_string(),
        unless: Some("(?i)error|fail".to_string()),
    }]);
    let result = processor.process("build failed with error");
    assert_ne!(result, "all good");
}

#[test]
fn test_on_empty_fallback() {
    let processor = OutputPostProcessor::new()
        .with_noise_patterns(vec![r".*".to_string()])
        .with_on_empty("no issues found");
    let result = processor.process("all noise removed\n");
    assert_eq!(result, "no issues found");
}

#[test]
fn test_for_turbo_strips_noise() {
    let processor = OutputPostProcessor::for_turbo();
    let output = "Tasks:    1 successful, 1 total\nCached:    0 cached, 1 total\n  Time:    1.234s\nsrc/main.ts\n  4:7  error  message";
    let result = processor.process(output);
    assert!(!result.contains("Tasks:"));
    assert!(!result.contains("Cached:"));
    assert!(!result.contains("Time:"));
    assert!(result.contains("src/main.ts"));
    assert!(result.contains("error"));
}

#[test]
fn test_for_turbo_strips_ansi_and_tui() {
    let processor = OutputPostProcessor::for_turbo();
    let output = "\u{250c}\u{2500} @scope/pkg#lint > cache hit\n\u{2502} \x1b[31m  16:3  warning  msg\x1b[0m\n\u{2514}\u{2500} @scope/pkg#lint \u{2500}\u{2500}";
    let result = processor.process(output);
    assert!(result.contains("16:3  warning  msg"));
    assert!(!result.contains("cache hit"));
    assert!(!result.contains("\u{250c}"));
    assert!(!result.contains("\x1b[31m"));
}

#[test]
fn test_for_turbo_on_empty() {
    let processor = OutputPostProcessor::for_turbo();
    let output = "Tasks:    1 successful, 1 total\nCached:    0 cached, 1 total\n";
    let result = processor.process(output);
    assert_eq!(result, "turbo: all tasks completed successfully");
}
