//! Error types of analysis, test analysis and report generation.

use vstd::prelude::*;
use std::time::Duration;

verus! {

/// `std::io::Error`, carried through unchanged.
#[verifier::external_type_specification]
#[verifier::external_body]
pub struct ExIoError(std::io::Error);

/// `io::Error`'s `Display` text. Nothing is claimed of the text.
#[verifier::external_body]
fn io_error_text(e: &std::io::Error) -> (r: String) {
    e.to_string()
}

/// `Duration`'s `Debug` text (`30s`, `1.5s`, `250ms`). Nothing is claimed of
/// the text.
#[verifier::external_body]
fn duration_text(d: &Duration) -> (r: String) {
    format!("{:?}", d)
}

/// Why an analysis failed.
#[derive(Debug)]
pub enum AnalyzerError {
    CommandFailed(String),
    ParseError(String),
    IoError(std::io::Error),
    NotApplicable,
    Timeout(Duration),
}

impl AnalyzerError {
    /// The error message: `Command failed: …`, `Parse error: …`,
    /// `IO error: …`, `Analyzer not applicable for this project`, or
    /// `Command timed out after …`.
    pub fn to_string(&self) -> (r: String)
        ensures
            match self {
                AnalyzerError::CommandFailed(m) => r@ == "Command failed: "@ + m@,
                AnalyzerError::ParseError(m) => r@ == "Parse error: "@ + m@,
                AnalyzerError::IoError(_) => r@.len() >= 10 && r@.take(10) == "IO error: "@,
                AnalyzerError::NotApplicable => r@ == "Analyzer not applicable for this project"@,
                AnalyzerError::Timeout(_) => r@.len() >= 24 && r@.take(24) == "Command timed out after "@,
            },
    {
        match self {
            AnalyzerError::CommandFailed(m) => {
                let mut s = String::from_str("Command failed: ");
                s.append(m.as_str());
                s
            },
            AnalyzerError::ParseError(m) => {
                let mut s = String::from_str("Parse error: ");
                s.append(m.as_str());
                s
            },
            AnalyzerError::IoError(e) => {
                let mut s = String::from_str("IO error: ");
                let t = io_error_text(e);
                s.append(t.as_str());
                proof { reveal_strlit("IO error: "); }
                assert(s@.take(10) =~= "IO error: "@);
                s
            },
            AnalyzerError::NotApplicable => String::from_str("Analyzer not applicable for this project"),
            AnalyzerError::Timeout(d) => {
                let mut s = String::from_str("Command timed out after ");
                let t = duration_text(d);
                s.append(t.as_str());
                proof { reveal_strlit("Command timed out after "); }
                assert(s@.take(24) =~= "Command timed out after "@);
                s
            },
        }
    }
}

impl From<std::io::Error> for AnalyzerError {
    fn from(e: std::io::Error) -> (r: AnalyzerError) {
        AnalyzerError::IoError(e)
    }
}

impl vstd::std_specs::convert::FromSpecImpl<std::io::Error> for AnalyzerError {
    open spec fn obeys_from_spec() -> bool {
        true
    }

    open spec fn from_spec(e: std::io::Error) -> AnalyzerError {
        AnalyzerError::IoError(e)
    }
}

/// Why a test analysis failed.
#[derive(Debug, Clone)]
pub enum TestAnalyzerError {
    CommandFailed(String),
    NotSupported,
}

impl TestAnalyzerError {
    /// `Test command failed: …` or `Test analysis not supported for this analyzer`.
    pub fn to_string(&self) -> (r: String)
        ensures
            match self {
                TestAnalyzerError::CommandFailed(m) => r@ == "Test command failed: "@ + m@,
                TestAnalyzerError::NotSupported => r@ == "Test analysis not supported for this analyzer"@,
            },
    {
        match self {
            TestAnalyzerError::CommandFailed(m) => {
                let mut s = String::from_str("Test command failed: ");
                s.append(m.as_str());
                s
            },
            TestAnalyzerError::NotSupported => String::from_str("Test analysis not supported for this analyzer"),
        }
    }
}

/// Why a report could not be produced or written.
#[derive(Debug)]
pub enum ReporterError {
    IoError(std::io::Error),
}

impl ReporterError {
    /// `IO error: …`.
    pub fn to_string(&self) -> (r: String)
        ensures
            r@.len() >= 10 && r@.take(10) == "IO error: "@,
    {
        match self {
            ReporterError::IoError(e) => {
                let mut s = String::from_str("IO error: ");
                let t = io_error_text(e);
                s.append(t.as_str());
                proof { reveal_strlit("IO error: "); }
                assert(s@.take(10) =~= "IO error: "@);
                s
            },
        }
    }
}

impl From<std::io::Error> for ReporterError {
    fn from(e: std::io::Error) -> (r: ReporterError) {
        ReporterError::IoError(e)
    }
}

impl vstd::std_specs::convert::FromSpecImpl<std::io::Error> for ReporterError {
    open spec fn obeys_from_spec() -> bool {
        true
    }

    open spec fn from_spec(e: std::io::Error) -> ReporterError {
        ReporterError::IoError(e)
    }
}

} // verus!
