//! Core types and processing shared by all technology stacks.

pub mod types;
pub mod result;
pub mod options;
pub mod utils;
pub mod stream;
pub mod parser;
pub mod errors;
pub mod testing;
pub mod tracking;
pub mod command;
pub mod settings;
pub mod tee;
pub mod pipeline;

pub use types::{
    CommandCategory, Issue, IssueLevel, Location, ReportFormat, SubCommand, TechStack, Verbosity,
};
pub use result::AnalysisResult;
pub use options::AnalyzeOptions;
