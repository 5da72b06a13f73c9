use analyzer::analysis::stream::PostProcessLineFilter;
use analyzer::analysis::utils::{OutputPostProcessor, ShortCircuitRule};


#[test]
fn test_post_process_line_filter_basic() {
    let processor = OutputPostProcessor::new()
        .with_strip_ansi(true)
        .with_noise_patterns(vec!["^debug:".to_string()]);
    let mut filter = PostProcessLineFilter::new(processor);

    assert!(filter.feed_line("debug: skip").is_none());
    assert_eq!(
        filter.feed_line("error: fail"),
        Some("error: fail".to_string())
    );

    let tail = filter.on_complete();
    assert!(tail.is_empty());
}

#[test]
fn test_post_process_line_filter_ansi_strip() {
    let processor = OutputPostProcessor::new().with_strip_ansi(true);
    let mut filter = PostProcessLineFilter::new(processor);
    let result = filter.feed_line("\x1b[31merror\x1b[0m: something");
    assert_eq!(result, Some("error: something".to_string()));
}

#[test]
fn test_post_process_line_filter_tui_border() {
    let processor = OutputPostProcessor::new().with_strip_tui_frames(true);
    let mut filter = PostProcessLineFilter::new(processor);
    assert!(filter
        .feed_line("\u{250c}\u{2500}\u{2500}\u{2500}\u{2510}")
        .is_none());
    let result = filter.feed_line("\u{2502} ./main.go:10:5: error");
    assert_eq!(result, Some("./main.go:10:5: error".to_string()));
}

#[test]
fn test_post_process_line_filter_preserves_indentation() {
    // Regression: TUI stripping must not remove leading whitespace from
    // regular output lines, otherwise the CMake block collector loses
    // continuation lines (message becomes just the command name).
    let processor = OutputPostProcessor::new().with_strip_tui_frames(true);
    let mut filter = PostProcessLineFilter::new(processor);
    let result = filter.feed_line("  Cannot find source file:");
    assert_eq!(result, Some("  Cannot find source file:".to_string()));
    let result = filter.feed_line("    src/main.cpp");
    assert_eq!(result, Some("    src/main.cpp".to_string()));
}

#[test]
fn test_post_process_line_filter_keep_only() {
    let processor =
        OutputPostProcessor::new().with_keep_patterns(vec!["error|warning".to_string()]);
    let mut filter = PostProcessLineFilter::new(processor);
    assert!(filter.feed_line("cache hit").is_none());
    assert_eq!(
        filter.feed_line("error: failed"),
        Some("error: failed".to_string())
    );
}

#[test]
fn test_post_process_line_filter_max_lines() {
    let processor = OutputPostProcessor::new().with_max_lines(2);
    let mut filter = PostProcessLineFilter::new(processor);
    assert!(filter.feed_line("line1").is_some());
    assert!(filter.feed_line("line2").is_some());
    assert!(filter.feed_line("line3").is_none());
}

#[test]
fn test_post_process_line_filter_on_empty() {
    let processor = OutputPostProcessor::new()
        .with_keep_patterns(vec!["$^".to_string()])
        .with_on_empty("all good");
    let mut filter = PostProcessLineFilter::new(processor);
    assert!(filter.feed_line("should be dropped").is_none());
    let tail = filter.on_complete();
    assert_eq!(tail, vec!["all good"]);
}

#[test]
fn test_post_process_line_filter_short_circuit() {
    let processor = OutputPostProcessor::new().with_short_circuits(vec![
        ShortCircuitRule {
            pattern: "SUCCESS".to_string(),
            message: "Build OK".to_string(),
            unless: None,
        },
    ]);
    let mut filter = PostProcessLineFilter::new(processor);
    filter.feed_line("BUILD SUCCESS");
    let tail = filter.on_complete();
    assert_eq!(tail, vec!["Build OK"]);
}
