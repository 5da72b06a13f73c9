use analyzer::analysis::parser::BlockCollector;
use analyzer::analysis::types::{Issue, IssueLevel, Location};


/// A mock BlockCollector that treats lines starting with "error:" as block starts
/// and empty lines as block ends. Extracts the first line as the issue message.
struct MockErrorCollector;

impl BlockCollector for MockErrorCollector {
    fn is_block_start(&self, line: &str) -> bool {
        let trimmed = line.trim();
        trimmed.starts_with("error:")
            || trimmed.starts_with("error[")
            || trimmed.starts_with("warning:")
    }

    fn is_block_end(&self, line: &str) -> bool {
        line.trim().is_empty() || line.trim() == "---"
    }

    fn extract_issues(&self, block: &Vec<String>) -> Vec<Issue> {
        if block.is_empty() {
            return vec![];
        }

        let first = block[0].trim();
        let level = if first.starts_with("error:") || first.starts_with("error[") {
            IssueLevel::Error
        } else {
            IssueLevel::Warning
        };

        let message = if let Some(colon) = first.find(':') {
            first[colon + 1..].trim().to_string()
        } else {
            first.to_string()
        };

        // Try to extract file:line from block
        // Format: "  --> file.rs:line:col"  or  "  --> file.rs:line"
        let mut location = Location::new("unknown");
        for line in block {
            let trimmed = line.trim();
            if let Some(arrow) = trimmed.find("-->") {
                let path_part = arrow + 3;
                let path_trimmed = trimmed[path_part..].trim();

                // Split on ':' — format is "file.rs:line:col" or "file.rs:line"
                // Use rsplitn to find last colon, then second-to-last for line number
                let parts: Vec<&str> = path_trimmed.splitn(3, ':').collect();
                if parts.len() >= 2 {
                    let file_path = parts[0].trim();
                    if let Ok(line_num) = parts[1].trim().parse::<u32>() {
                        location = Location::new(file_path).with_line(line_num);
                    }
                }
            }
        }

        vec![Issue::new(level, &message, location)]
    }
}


#[test]
fn test_collect_single_block() {
    let collector = MockErrorCollector;
    let output = "\
error[E0308]: mismatched types
  --> src/main.rs:10:5
   |
10 |     let x: String = 42;
   |     ^^^^^^^^^^^^^^^^^^^^ expected `String`, found integer
";
    let issues = collector.collect_all_blocks(output);
    assert_eq!(issues.len(), 1, "Expected 1 issue, got {}", issues.len());

    assert_eq!(
        issues[0].location.file_path, "src/main.rs",
        "Expected file_path = src/main.rs, got {}",
        issues[0].location.file_path
    );
    assert_eq!(
        issues[0].message, "mismatched types",
        "Expected message = mismatched types, got {}",
        issues[0].message
    );
    assert_eq!(
        issues[0].location.line_number,
        Some(10),
        "Expected line_number = 10, got {:?}",
        issues[0].location.line_number
    );
    assert!(
        matches!(issues[0].level, IssueLevel::Error),
        "Expected Error level, got {:?}",
        issues[0].level
    );
}

#[test]
fn test_collect_multiple_blocks() {
    let collector = MockErrorCollector;
    let output = "\
error: first error
  --> src/a.rs:1:1

warning: second issue
  --> src/b.rs:5:3
";
    let issues = collector.collect_all_blocks(output);
    assert_eq!(issues.len(), 2);
    assert_eq!(issues[0].message, "first error");
    assert_eq!(issues[1].message, "second issue");
}

#[test]
fn test_block_iterator() {
    let collector = MockErrorCollector;
    let lines: Vec<String> = vec![
        "error: first".to_string(),
        "  --> a.rs:1".to_string(),
        "".to_string(),
        "warning: second".to_string(),
        "  --> b.rs:5".to_string(),
        "".to_string(),
    ];

    let blocks: Vec<_> = collector.collect_blocks(&lines).collect_remaining();
    assert_eq!(blocks.len(), 2);
    assert_eq!(blocks[0].len(), 2);
    assert_eq!(blocks[1].len(), 2);
}

#[test]
fn test_collector_ignores_before_first_block() {
    let collector = MockErrorCollector;
    let lines: Vec<String> = vec![
        "some header line".to_string(),
        "another header".to_string(),
        "".to_string(),
        "error: real issue".to_string(),
        "  --> file.rs:1".to_string(),
    ];

    let blocks: Vec<_> = collector.collect_blocks(&lines).collect_remaining();
    assert_eq!(blocks.len(), 1);
    assert_eq!(blocks[0][0], "error: real issue");
}

#[test]
fn test_custom_block_end() {
    struct DashEndCollector;
    impl BlockCollector for DashEndCollector {
        fn is_block_start(&self, line: &str) -> bool {
            line.starts_with("error:")
        }
        fn is_block_end(&self, line: &str) -> bool {
            line.trim() == "---"
        }
        fn extract_issues(&self, block: &Vec<String>) -> Vec<Issue> {
            let msg = block
                .first()
                .map(|l| l.trim().to_string())
                .unwrap_or_default();
            vec![Issue::new(IssueLevel::Error, &msg, Location::new("unknown"))]
        }
    }

    let collector = DashEndCollector;
    let output = "\
error: block one
line in block one
---
error: block two
line in block two
---
";
    let issues = collector.collect_all_blocks(output);
    assert_eq!(issues.len(), 2);
}

#[test]
fn test_collect_remaining() {
    let collector = MockErrorCollector;
    let lines: Vec<String> = vec![
        "error: first".to_string(),
        "  --> a.rs:1".to_string(),
        "".to_string(),
        "error: second".to_string(),
        "  --> b.rs:2".to_string(),
    ];

    let mut iter = collector.collect_blocks(&lines);
    // Skip first block
    let first = iter.next_block();
    assert!(first.is_some());

    let remaining = iter.collect_remaining();
    assert_eq!(remaining.len(), 1);
    assert_eq!(remaining[0][0], "error: second");
}
