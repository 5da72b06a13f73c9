//! Command discovery: maps raw shell commands to a technology stack and a
//! subcommand.

pub mod lexer;
pub mod rules;
pub mod registry;

pub use lexer::split_on_operators;
pub use registry::{
    classify_by_category, classify_command, classify_command_with_config, classify_with_ruleset,
    rewrite_command, rewrite_command_with_config, rewrite_first_segment, Classification,
};
