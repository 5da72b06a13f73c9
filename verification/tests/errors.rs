use analyzer::analysis::errors::{AnalyzerError, TestAnalyzerError};
use std::time::Duration;

#[test]
fn test_analyzer_error_command_failed_display() {
    let err = AnalyzerError::CommandFailed("command not found".to_string());
    assert_eq!(err.to_string(), "Command failed: command not found");
}

#[test]
fn test_analyzer_error_parse_error_display() {
    let err = AnalyzerError::ParseError("invalid syntax".to_string());
    assert_eq!(err.to_string(), "Parse error: invalid syntax");
}

#[test]
fn test_analyzer_error_io_error_display() {
    let io_err = std::io::Error::new(std::io::ErrorKind::NotFound, "file not found");
    let err = AnalyzerError::IoError(io_err);
    assert!(err.to_string().contains("IO error:"));
}

#[test]
fn test_analyzer_error_not_applicable_display() {
    let err = AnalyzerError::NotApplicable;
    assert_eq!(err.to_string(), "Analyzer not applicable for this project");
}

#[test]
fn test_analyzer_error_timeout_display() {
    let err = AnalyzerError::Timeout(Duration::from_secs(30));
    assert_eq!(err.to_string(), "Command timed out after 30s");
}

#[test]
fn test_analyzer_error_from_io() {
    let io_err = std::io::Error::new(std::io::ErrorKind::PermissionDenied, "permission denied");
    let err: AnalyzerError = io_err.into();
    assert!(matches!(err, AnalyzerError::IoError(_)));
}

#[test]
fn test_test_analyzer_error_display() {
    let err = TestAnalyzerError::CommandFailed("timeout".to_string());
    assert_eq!(err.to_string(), "Test command failed: timeout");

    let err = TestAnalyzerError::NotSupported;
    assert_eq!(err.to_string(), "Test analysis not supported for this analyzer");
}

#[test]
fn io_error_message_is_carried_into_the_display() {
    let io_err = std::io::Error::new(std::io::ErrorKind::NotFound, "file not found");
    let err = AnalyzerError::IoError(io_err);
    assert_eq!(err.to_string(), "IO error: file not found");
}
