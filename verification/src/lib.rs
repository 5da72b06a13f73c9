//! Build-tool output analysis: command discovery, output filtering, issue
//! parsing and aggregation, and report generation.

pub mod text;
pub mod pattern;
pub mod discover;
pub mod analysis;
pub mod config;
pub mod report;
pub mod cli;
