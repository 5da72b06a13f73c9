//! Report generation: options shared by the reporters, and the reporters
//! for Markdown, JSON, HTML and raw output.

pub mod common;
pub mod factory;
pub mod html;
pub mod json;
pub mod markdown;
pub mod options;
pub mod raw;

pub use factory::{AnyReporter, ReporterFactory};
pub use html::HtmlReporter;
pub use json::JsonReporter;
pub use markdown::MarkdownReporter;
pub use options::ReportOptions;
pub use raw::RawReporter;
